//! In-memory station provider: raw station rows, stop-type links, and the
//! query semantics of the station repository — status filtering, the
//! standard (`e_sort`, `station_cd`) ordering, free-text name matching,
//! and proximity search with group deduplication.

use vstd::prelude::*;

use crate::station::{Station, StopCondition};
use crate::line::clone_opt_string;
use crate::text::{contains_ci, str_contains_ci, opt_contains_ci};

verus! {

/// A raw row of the stations table.  Geographic position is held in
/// micro-degrees.
pub struct StationRow {
    pub station_cd: u32,
    pub station_g_cd: u32,
    pub station_name: String,
    pub station_name_k: String,
    pub station_name_r: Option<String>,
    pub station_name_zh: Option<String>,
    pub station_name_ko: Option<String>,
    pub primary_station_number: Option<String>,
    pub secondary_station_number: Option<String>,
    pub extra_station_number: Option<String>,
    pub three_letter_code: Option<String>,
    pub line_cd: u32,
    pub pref_cd: u32,
    pub post: String,
    pub address: String,
    pub lon: i64,
    pub lat: i64,
    pub open_ymd: String,
    pub close_ymd: String,
    pub e_status: u32,
    pub e_sort: u32,
}

impl Clone for StationRow {
    fn clone(&self) -> (r: Self)
        ensures
            r == *self,
    {
        StationRow {
            station_cd: self.station_cd,
            station_g_cd: self.station_g_cd,
            station_name: self.station_name.clone(),
            station_name_k: self.station_name_k.clone(),
            station_name_r: clone_opt_string(&self.station_name_r),
            station_name_zh: clone_opt_string(&self.station_name_zh),
            station_name_ko: clone_opt_string(&self.station_name_ko),
            primary_station_number: clone_opt_string(&self.primary_station_number),
            secondary_station_number: clone_opt_string(&self.secondary_station_number),
            extra_station_number: clone_opt_string(&self.extra_station_number),
            three_letter_code: clone_opt_string(&self.three_letter_code),
            line_cd: self.line_cd,
            pref_cd: self.pref_cd,
            post: self.post.clone(),
            address: self.address.clone(),
            lon: self.lon,
            lat: self.lat,
            open_ymd: self.open_ymd.clone(),
            close_ymd: self.close_ymd.clone(),
            e_status: self.e_status,
            e_sort: self.e_sort,
        }
    }
}

/// One service-pattern link of the station-stop-types table: it ties a
/// station to a line group, with the stop classification in `pass`.
#[derive(Clone, Copy, PartialEq, Eq, Structural, Debug)]
pub struct StationStopLink {
    pub station_cd: u32,
    pub line_group_cd: u32,
    pub pass: i64,
}

/// A station row selected by a query, together with the per-query
/// annotations: the stop classification of the link it was reached
/// through (0 outside line-group queries) and the computed proximity
/// distance (present only for coordinate queries).
pub struct StationQueryRow {
    pub row: StationRow,
    pub pass: i64,
    pub distance: Option<u64>,
}

impl Clone for StationQueryRow {
    fn clone(&self) -> (r: Self)
        ensures
            r == *self,
    {
        StationQueryRow { row: self.row.clone(), pass: self.pass, distance: self.distance }
    }
}

/// A plainly selected row: no stop classification, no distance.
pub open spec fn qrow_plain(row: StationRow) -> StationQueryRow {
    StationQueryRow { row, pass: 0, distance: Option::None }
}

/// Decode the stop classification column.
pub open spec fn stop_condition_of(pass: i64) -> StopCondition {
    if pass == 1 {
        StopCondition::Not
    } else if pass == 2 {
        StopCondition::Partial
    } else if pass == 3 {
        StopCondition::Weekday
    } else if pass == 4 {
        StopCondition::Holiday
    } else if pass == 5 {
        StopCondition::PartialStop
    } else {
        StopCondition::All
    }
}

/// Decode the stop classification column.
pub fn stop_condition_from_pass(pass: i64) -> (r: StopCondition)
    ensures
        r == stop_condition_of(pass),
{
    if pass == 1 {
        StopCondition::Not
    } else if pass == 2 {
        StopCondition::Partial
    } else if pass == 3 {
        StopCondition::Weekday
    } else if pass == 4 {
        StopCondition::Holiday
    } else if pass == 5 {
        StopCondition::PartialStop
    } else {
        StopCondition::All
    }
}

/// Number of non-skipped service-pattern links of a station: its
/// "stop-type count" annotation, used by callers as a "has service
/// patterns" flag.
pub open spec fn stop_type_count(links: Seq<StationStopLink>, station_cd: u32) -> int
    decreases links.len(),
{
    if links.len() == 0 {
        0
    } else {
        stop_type_count(links.drop_last(), station_cd) + if links.last().station_cd == station_cd
            && links.last().pass != 1 {
            1int
        } else {
            0int
        }
    }
}

/// Count the non-skipped service-pattern links of a station.
pub fn count_stop_types(links: &Vec<StationStopLink>, station_cd: u32) -> (r: u64)
    ensures
        r as int == stop_type_count(links@, station_cd),
{
    let mut count: u64 = 0;
    let mut i: usize = 0;
    while i < links.len()
        invariant
            0 <= i <= links.len(),
            count as int == stop_type_count(links@.take(i as int), station_cd),
            count <= i,
        decreases links.len() - i,
    {
        proof {
            assert(links@.take(i + 1).drop_last() =~= links@.take(i as int));
            assert(links@.take(i + 1).last() == links@[i as int]);
        }
        if links[i].station_cd == station_cd && links[i].pass != 1 {
            count = count + 1;
        }
        i = i + 1;
    }
    proof {
        assert(links@.take(links@.len() as int) =~= links@);
    }
    count
}

/// The raw columns of the entity agree with the selected row: every
/// column carried over, the stop classification decoded, the stop-type
/// count attached.  Says nothing of the derived collections.
pub open spec fn station_raw_matches_qrow(
    s: Station,
    q: StationQueryRow,
    links: Seq<StationStopLink>,
) -> bool {
    &&& s.station_cd == q.row.station_cd
    &&& s.station_g_cd == q.row.station_g_cd
    &&& s.station_name == q.row.station_name
    &&& s.station_name_k == q.row.station_name_k
    &&& s.station_name_r == q.row.station_name_r
    &&& s.station_name_zh == q.row.station_name_zh
    &&& s.station_name_ko == q.row.station_name_ko
    &&& s.primary_station_number == q.row.primary_station_number
    &&& s.secondary_station_number == q.row.secondary_station_number
    &&& s.extra_station_number == q.row.extra_station_number
    &&& s.three_letter_code == q.row.three_letter_code
    &&& s.line_cd == q.row.line_cd
    &&& s.pref_cd == q.row.pref_cd
    &&& s.post == q.row.post
    &&& s.address == q.row.address
    &&& s.lon == q.row.lon
    &&& s.lat == q.row.lat
    &&& s.open_ymd == q.row.open_ymd
    &&& s.close_ymd == q.row.close_ymd
    &&& s.e_status == q.row.e_status
    &&& s.e_sort == q.row.e_sort
    &&& s.stop_condition == stop_condition_of(q.pass)
    &&& s.distance == q.distance
    &&& s.station_types_count as int == stop_type_count(links, q.row.station_cd)
}

/// The entity built from a selected row: the raw columns as in
/// [`station_raw_matches_qrow`], and the derived collections empty, as
/// every provider returns them.
pub open spec fn station_matches_qrow(
    s: Station,
    q: StationQueryRow,
    links: Seq<StationStopLink>,
) -> bool {
    &&& station_raw_matches_qrow(s, q, links)
    &&& s.station_numbers@.len() == 0
    &&& s.line is None
    &&& s.lines@.len() == 0
}

/// Build the entity for a selected row.
pub fn station_from_qrow(q: &StationQueryRow, links: &Vec<StationStopLink>) -> (s: Station)
    ensures
        station_matches_qrow(s, *q, links@),
{
    Station {
        station_cd: q.row.station_cd,
        station_g_cd: q.row.station_g_cd,
        station_name: q.row.station_name.clone(),
        station_name_k: q.row.station_name_k.clone(),
        station_name_r: clone_opt_string(&q.row.station_name_r),
        station_name_zh: clone_opt_string(&q.row.station_name_zh),
        station_name_ko: clone_opt_string(&q.row.station_name_ko),
        station_numbers: Vec::new(),
        primary_station_number: clone_opt_string(&q.row.primary_station_number),
        secondary_station_number: clone_opt_string(&q.row.secondary_station_number),
        extra_station_number: clone_opt_string(&q.row.extra_station_number),
        three_letter_code: clone_opt_string(&q.row.three_letter_code),
        line_cd: q.row.line_cd,
        line: None,
        lines: Vec::new(),
        pref_cd: q.row.pref_cd,
        post: q.row.post.clone(),
        address: q.row.address.clone(),
        lon: q.row.lon,
        lat: q.row.lat,
        open_ymd: q.row.open_ymd.clone(),
        close_ymd: q.row.close_ymd.clone(),
        e_status: q.row.e_status,
        e_sort: q.row.e_sort,
        stop_condition: stop_condition_from_pass(q.pass),
        distance: match &q.distance {
            Some(d) => Some(*d),
            None => None,
        },
        station_types_count: count_stop_types(links, q.row.station_cd),
    }
}

/// The standard listing order: secondary sort field, then primary
/// identifier, ascending.
pub open spec fn le_order(a: StationQueryRow, b: StationQueryRow) -> bool {
    a.row.e_sort < b.row.e_sort || (a.row.e_sort == b.row.e_sort && a.row.station_cd
        <= b.row.station_cd)
}

/// Ascending computed distance.
pub open spec fn dist_val(q: StationQueryRow) -> int {
    match q.distance {
        Option::Some(d) => d as int,
        Option::None => 0,
    }
}

/// Proximity order: ascending computed distance.
pub open spec fn le_dist(a: StationQueryRow, b: StationQueryRow) -> bool {
    dist_val(a) <= dist_val(b)
}

/// Stable insertion into a sequence sorted by [`le_order`]: the new row
/// goes after every row that is less than or equal to it.
pub open spec fn insert_by_order(s: Seq<StationQueryRow>, x: StationQueryRow)
    -> Seq<StationQueryRow>
    decreases s.len(),
{
    if s.len() == 0 {
        seq![x]
    } else if le_order(s.last(), x) {
        s.push(x)
    } else {
        insert_by_order(s.drop_last(), x).push(s.last())
    }
}

/// Stable insertion sort by [`le_order`].
pub open spec fn sort_by_order(s: Seq<StationQueryRow>) -> Seq<StationQueryRow>
    decreases s.len(),
{
    if s.len() == 0 {
        Seq::empty()
    } else {
        insert_by_order(sort_by_order(s.drop_last()), s.last())
    }
}

/// Stable insertion into a sequence sorted by [`le_dist`].
pub open spec fn insert_by_dist(s: Seq<StationQueryRow>, x: StationQueryRow)
    -> Seq<StationQueryRow>
    decreases s.len(),
{
    if s.len() == 0 {
        seq![x]
    } else if le_dist(s.last(), x) {
        s.push(x)
    } else {
        insert_by_dist(s.drop_last(), x).push(s.last())
    }
}

/// Stable insertion sort by [`le_dist`].
pub open spec fn sort_by_dist(s: Seq<StationQueryRow>) -> Seq<StationQueryRow>
    decreases s.len(),
{
    if s.len() == 0 {
        Seq::empty()
    } else {
        insert_by_dist(sort_by_dist(s.drop_last()), s.last())
    }
}

/// Where the scanned insertion point lands, [`insert_by_order`] splits the
/// sequence there.
proof fn lemma_insert_by_order_at(s: Seq<StationQueryRow>, x: StationQueryRow, i: int)
    requires
        0 <= i <= s.len(),
        i == 0 || le_order(s[i - 1], x),
        forall|m: int| i <= m < s.len() ==> !le_order(#[trigger] s[m], x),
    ensures
        insert_by_order(s, x) == s.subrange(0, i).push(x) + s.subrange(i, s.len() as int),
    decreases s.len(),
{
    if s.len() == 0 {
        assert(insert_by_order(s, x) =~= s.subrange(0, 0).push(x) + s.subrange(0, 0));
    } else if i == s.len() {
        assert(insert_by_order(s, x) =~= s.subrange(0, i).push(x) + s.subrange(i, s.len() as int));
    } else {
        let s2 = s.drop_last();
        assert(forall|m: int| i <= m < s2.len() ==> !le_order(#[trigger] s2[m], x));
        lemma_insert_by_order_at(s2, x, i);
        assert(insert_by_order(s, x) =~= s.subrange(0, i).push(x) + s.subrange(i, s.len() as int));
    }
}

/// Where the scanned insertion point lands, [`insert_by_dist`] splits the
/// sequence there.
proof fn lemma_insert_by_dist_at(s: Seq<StationQueryRow>, x: StationQueryRow, i: int)
    requires
        0 <= i <= s.len(),
        i == 0 || le_dist(s[i - 1], x),
        forall|m: int| i <= m < s.len() ==> !le_dist(#[trigger] s[m], x),
    ensures
        insert_by_dist(s, x) == s.subrange(0, i).push(x) + s.subrange(i, s.len() as int),
    decreases s.len(),
{
    if s.len() == 0 {
        assert(insert_by_dist(s, x) =~= s.subrange(0, 0).push(x) + s.subrange(0, 0));
    } else if i == s.len() {
        assert(insert_by_dist(s, x) =~= s.subrange(0, i).push(x) + s.subrange(i, s.len() as int));
    } else {
        let s2 = s.drop_last();
        assert(forall|m: int| i <= m < s2.len() ==> !le_dist(#[trigger] s2[m], x));
        lemma_insert_by_dist_at(s2, x, i);
        assert(insert_by_dist(s, x) =~= s.subrange(0, i).push(x) + s.subrange(i, s.len() as int));
    }
}

/// Compare two selected rows by the standard listing order.
fn le_order_exec(a: &StationQueryRow, b: &StationQueryRow) -> (r: bool)
    ensures
        r == le_order(*a, *b),
{
    a.row.e_sort < b.row.e_sort || (a.row.e_sort == b.row.e_sort && a.row.station_cd
        <= b.row.station_cd)
}

/// Compare two selected rows by computed distance.
fn le_dist_exec(a: &StationQueryRow, b: &StationQueryRow) -> (r: bool)
    ensures
        r == le_dist(*a, *b),
{
    let da: u64 = match &a.distance {
        Some(d) => *d,
        None => 0,
    };
    let db: u64 = match &b.distance {
        Some(d) => *d,
        None => 0,
    };
    da <= db
}

/// Insert a selected row into a collection kept in the standard order.
fn insert_sorted_by_order(acc: &mut Vec<StationQueryRow>, x: StationQueryRow)
    ensures
        final(acc)@ == insert_by_order(old(acc)@, x),
{
    let mut idx: usize = acc.len();
    while idx > 0 && !le_order_exec(&acc[idx - 1], &x)
        invariant
            idx <= acc@.len(),
            acc@ == old(acc)@,
            forall|m: int| idx <= m < acc@.len() ==> !le_order(#[trigger] acc@[m], x),
        decreases idx,
    {
        idx = idx - 1;
    }
    proof {
        lemma_insert_by_order_at(acc@, x, idx as int);
    }
    acc.insert(idx, x);
    assert(final(acc)@ =~= old(acc)@.subrange(0, idx as int).push(x) + old(acc)@.subrange(
        idx as int,
        old(acc)@.len() as int,
    ));
}

/// Insert a selected row into a collection kept in distance order.
fn insert_sorted_by_dist(acc: &mut Vec<StationQueryRow>, x: StationQueryRow)
    ensures
        final(acc)@ == insert_by_dist(old(acc)@, x),
{
    let mut idx: usize = acc.len();
    while idx > 0 && !le_dist_exec(&acc[idx - 1], &x)
        invariant
            idx <= acc@.len(),
            acc@ == old(acc)@,
            forall|m: int| idx <= m < acc@.len() ==> !le_dist(#[trigger] acc@[m], x),
        decreases idx,
    {
        idx = idx - 1;
    }
    proof {
        lemma_insert_by_dist_at(acc@, x, idx as int);
    }
    acc.insert(idx, x);
    assert(final(acc)@ =~= old(acc)@.subrange(0, idx as int).push(x) + old(acc)@.subrange(
        idx as int,
        old(acc)@.len() as int,
    ));
}

/// Sort selected rows by the standard listing order.
fn sort_rows_by_order(v: &Vec<StationQueryRow>) -> (r: Vec<StationQueryRow>)
    ensures
        r@ == sort_by_order(v@),
{
    let mut out: Vec<StationQueryRow> = Vec::new();
    let mut i: usize = 0;
    while i < v.len()
        invariant
            0 <= i <= v.len(),
            out@ == sort_by_order(v@.take(i as int)),
        decreases v.len() - i,
    {
        insert_sorted_by_order(&mut out, v[i].clone());
        proof {
            assert(v@.take(i + 1).drop_last() =~= v@.take(i as int));
            assert(v@.take(i + 1).last() == v@[i as int]);
        }
        i = i + 1;
    }
    proof {
        assert(v@.take(v@.len() as int) =~= v@);
    }
    out
}

/// Sort selected rows by ascending distance.
fn sort_rows_by_dist(v: &Vec<StationQueryRow>) -> (r: Vec<StationQueryRow>)
    ensures
        r@ == sort_by_dist(v@),
{
    let mut out: Vec<StationQueryRow> = Vec::new();
    let mut i: usize = 0;
    while i < v.len()
        invariant
            0 <= i <= v.len(),
            out@ == sort_by_dist(v@.take(i as int)),
        decreases v.len() - i,
    {
        insert_sorted_by_dist(&mut out, v[i].clone());
        proof {
            assert(v@.take(i + 1).drop_last() =~= v@.take(i as int));
            assert(v@.take(i + 1).last() == v@[i as int]);
        }
        i = i + 1;
    }
    proof {
        assert(v@.take(v@.len() as int) =~= v@);
    }
    out
}

/// Coordinates are bounded by the globe: at most 180 degrees in
/// magnitude, held in micro-degrees.
pub open spec fn coord_in_range(v: i64) -> bool {
    -180000000 <= v <= 180000000
}

/// Squared planar offset between two positions in micro-degrees: the
/// deterministic proximity measure of the in-memory provider.  (The
/// storage collaborator's spherical distance lives outside the core.)
pub open spec fn sq_distance(a_lat: i64, a_lon: i64, b_lat: i64, b_lon: i64) -> int {
    (a_lat - b_lat) * (a_lat - b_lat) + (a_lon - b_lon) * (a_lon - b_lon)
}

/// Compute the squared planar offset.
pub fn compute_distance(a_lat: i64, a_lon: i64, b_lat: i64, b_lon: i64) -> (r: u64)
    requires
        coord_in_range(a_lat),
        coord_in_range(a_lon),
        coord_in_range(b_lat),
        coord_in_range(b_lon),
    ensures
        r as int == sq_distance(a_lat, a_lon, b_lat, b_lon),
{
    let dlat = a_lat - b_lat;
    let dlon = a_lon - b_lon;
    assert(0 <= dlat * dlat <= 130000000000000000 && 0 <= dlon * dlon
        <= 130000000000000000) by (nonlinear_arith)
        requires
            -360000000 <= dlat <= 360000000,
            -360000000 <= dlon <= 360000000,
    ;
    let p1 = dlat * dlat;
    let p2 = dlon * dlon;
    (p1 + p2) as u64
}

/// The rows of a line, active only.
pub open spec fn rows_by_line(rows: Seq<StationRow>, line_cd: u32) -> Seq<StationQueryRow>
    decreases rows.len(),
{
    if rows.len() == 0 {
        Seq::empty()
    } else {
        let rest = rows_by_line(rows.drop_last(), line_cd);
        if rows.last().e_status == 0 && rows.last().line_cd == line_cd {
            rest.push(qrow_plain(rows.last()))
        } else {
            rest
        }
    }
}

/// The rows of a station group, active only.
pub open spec fn rows_by_group(rows: Seq<StationRow>, station_g_cd: u32) -> Seq<StationQueryRow>
    decreases rows.len(),
{
    if rows.len() == 0 {
        Seq::empty()
    } else {
        let rest = rows_by_group(rows.drop_last(), station_g_cd);
        if rows.last().e_status == 0 && rows.last().station_g_cd == station_g_cd {
            rest.push(qrow_plain(rows.last()))
        } else {
            rest
        }
    }
}

/// The query matches some localized name field of the row,
/// case-insensitively and by substring containment: `'a'` and `'A'` are
/// one letter; folding is ASCII-only, other scripts match exactly.
pub open spec fn station_name_matches(row: StationRow, q: Seq<char>) -> bool {
    ||| contains_ci(row.station_name@, q)
    ||| row.station_name_r is Some && contains_ci(row.station_name_r->0@, q)
    ||| contains_ci(row.station_name_k@, q)
    ||| row.station_name_zh is Some && contains_ci(row.station_name_zh->0@, q)
    ||| row.station_name_ko is Some && contains_ci(row.station_name_ko->0@, q)
}

/// Test the query against every localized name field of the row.
pub fn row_name_matches(row: &StationRow, q: &str) -> (r: bool)
    ensures
        r == station_name_matches(*row, q@),
{
    if str_contains_ci(row.station_name.as_str(), q) {
        return true;
    }
    if opt_contains_ci(&row.station_name_r, q) {
        return true;
    }
    if str_contains_ci(row.station_name_k.as_str(), q) {
        return true;
    }
    if opt_contains_ci(&row.station_name_zh, q) {
        return true;
    }
    opt_contains_ci(&row.station_name_ko, q)
}

/// The active rows whose localized names match the query.
pub open spec fn rows_by_name(rows: Seq<StationRow>, q: Seq<char>) -> Seq<StationQueryRow>
    decreases rows.len(),
{
    if rows.len() == 0 {
        Seq::empty()
    } else {
        let rest = rows_by_name(rows.drop_last(), q);
        if rows.last().e_status == 0 && station_name_matches(rows.last(), q) {
            rest.push(qrow_plain(rows.last()))
        } else {
            rest
        }
    }
}

/// All active rows, annotated with their squared planar offset from the
/// query position.
pub open spec fn rows_with_distance(rows: Seq<StationRow>, lat: i64, lon: i64)
    -> Seq<StationQueryRow>
    decreases rows.len(),
{
    if rows.len() == 0 {
        Seq::empty()
    } else {
        let rest = rows_with_distance(rows.drop_last(), lat, lon);
        let row = rows.last();
        if row.e_status == 0 {
            rest.push(
                StationQueryRow {
                    row,
                    pass: 0,
                    distance: Option::Some(sq_distance(row.lat, row.lon, lat, lon) as u64),
                },
            )
        } else {
            rest
        }
    }
}

/// The first active row with the given station id, if any.
pub open spec fn find_station_row(rows: Seq<StationRow>, station_cd: u32) -> Option<StationRow>
    decreases rows.len(),
{
    if rows.len() == 0 {
        Option::None
    } else if rows[0].e_status == 0 && rows[0].station_cd == station_cd {
        Option::Some(rows[0])
    } else {
        find_station_row(rows.drop_first(), station_cd)
    }
}

/// Scan for the first active row with the given station id.
pub fn find_station_row_exec(rows: &Vec<StationRow>, station_cd: u32) -> (r: Option<StationRow>)
    ensures
        match find_station_row(rows@, station_cd) {
            Option::Some(row) => r == Option::Some(row),
            Option::None => r is None,
        },
{
    let mut i: usize = 0;
    proof {
        assert(rows@.skip(0) =~= rows@);
    }
    while i < rows.len()
        invariant
            0 <= i <= rows.len(),
            find_station_row(rows@, station_cd) == find_station_row(
                rows@.skip(i as int),
                station_cd,
            ),
        decreases rows.len() - i,
    {
        if rows[i].e_status == 0 && rows[i].station_cd == station_cd {
            assert(rows@.skip(i as int)[0] == rows@[i as int]);
            return Some(rows[i].clone());
        }
        proof {
            assert(rows@.skip(i as int).drop_first() =~= rows@.skip(i + 1));
        }
        i = i + 1;
    }
    assert(rows@.skip(i as int).len() == 0);
    None
}

/// The rows reached from a line group through the service-pattern links,
/// each carrying its link's stop classification.
pub open spec fn rows_by_line_group(
    links: Seq<StationStopLink>,
    rows: Seq<StationRow>,
    line_group_cd: u32,
) -> Seq<StationQueryRow>
    decreases links.len(),
{
    if links.len() == 0 {
        Seq::empty()
    } else {
        let rest = rows_by_line_group(links.drop_last(), rows, line_group_cd);
        let link = links.last();
        if link.line_group_cd == line_group_cd {
            match find_station_row(rows, link.station_cd) {
                Option::Some(row) => rest.push(
                    StationQueryRow { row, pass: link.pass, distance: Option::None },
                ),
                Option::None => rest,
            }
        } else {
            rest
        }
    }
}

/// The sequence holds some row of this station group.
pub open spec fn group_in(s: Seq<StationQueryRow>, station_g_cd: u32) -> bool {
    exists|j: int| 0 <= j < s.len() && #[trigger] s[j].row.station_g_cd == station_g_cd
}

/// Keep one representative per station group: the first row of each group
/// in the given order.
pub open spec fn dedup_groups(s: Seq<StationQueryRow>) -> Seq<StationQueryRow>
    decreases s.len(),
{
    if s.len() == 0 {
        Seq::empty()
    } else {
        let d = dedup_groups(s.drop_last());
        if group_in(s.drop_last(), s.last().row.station_g_cd) {
            d
        } else {
            d.push(s.last())
        }
    }
}

/// Scan a prefix for a row of the given station group.
fn group_seen(v: &Vec<StationQueryRow>, end: usize, station_g_cd: u32) -> (r: bool)
    requires
        end <= v@.len(),
    ensures
        r == group_in(v@.take(end as int), station_g_cd),
{
    let mut j: usize = 0;
    while j < end
        invariant
            0 <= j <= end <= v@.len(),
            forall|k: int| 0 <= k < j ==> #[trigger] v@[k].row.station_g_cd != station_g_cd,
        decreases end - j,
    {
        if v[j].row.station_g_cd == station_g_cd {
            assert(v@.take(end as int)[j as int].row.station_g_cd == station_g_cd);
            return true;
        }
        j = j + 1;
    }
    assert(forall|k: int|
        0 <= k < end ==> #[trigger] v@.take(end as int)[k].row.station_g_cd != station_g_cd);
    false
}

/// Drop all but the first row of each station group.
fn dedup_by_group(v: &Vec<StationQueryRow>) -> (r: Vec<StationQueryRow>)
    ensures
        r@ == dedup_groups(v@),
{
    let mut out: Vec<StationQueryRow> = Vec::new();
    let mut i: usize = 0;
    while i < v.len()
        invariant
            0 <= i <= v.len(),
            out@ == dedup_groups(v@.take(i as int)),
        decreases v.len() - i,
    {
        proof {
            assert(v@.take(i + 1).drop_last() =~= v@.take(i as int));
            assert(v@.take(i + 1).last() == v@[i as int]);
        }
        if !group_seen(v, i, v[i].row.station_g_cd) {
            out.push(v[i].clone());
        }
        i = i + 1;
    }
    proof {
        assert(v@.take(v@.len() as int) =~= v@);
    }
    out
}

/// A missing limit means "nearest one": queries default to a single row.
pub open spec fn limit_val(limit: Option<u32>) -> int {
    match limit {
        Option::Some(l) => l as int,
        Option::None => 1,
    }
}

/// Truncate the selection to the caller's limit.
pub open spec fn take_limit(s: Seq<StationQueryRow>, limit: Option<u32>) -> Seq<StationQueryRow> {
    if s.len() <= limit_val(limit) {
        s
    } else {
        s.subrange(0, limit_val(limit))
    }
}

/// Truncate a selection to the caller's limit.
fn take_rows(v: &Vec<StationQueryRow>, limit: Option<u32>) -> (r: Vec<StationQueryRow>)
    ensures
        r@ == take_limit(v@, limit),
{
    let n_u32: u32 = match &limit {
        Some(l) => *l,
        None => 1,
    };
    let n: usize = if (n_u32 as usize) <= v.len() {
        n_u32 as usize
    } else {
        v.len()
    };
    let mut out: Vec<StationQueryRow> = Vec::new();
    let mut i: usize = 0;
    while i < n
        invariant
            0 <= i <= n <= v@.len(),
            out@ == v@.subrange(0, i as int),
        decreases n - i,
    {
        out.push(v[i].clone());
        assert(out@ =~= v@.subrange(0, i + 1));
        i = i + 1;
    }
    proof {
        if v@.len() <= limit_val(limit) {
            assert(out@ =~= take_limit(v@, limit));
        } else {
            assert(out@ =~= take_limit(v@, limit));
        }
    }
    out
}

/// Build the entity list for a selection, in order.
fn stations_from_qrows(v: &Vec<StationQueryRow>, links: &Vec<StationStopLink>) -> (r: Vec<Station>)
    ensures
        r@.len() == v@.len(),
        forall|i: int|
            0 <= i < v@.len() ==> #[trigger] station_matches_qrow(r@[i], v@[i], links@),
    {
    let mut out: Vec<Station> = Vec::new();
    let mut i: usize = 0;
    while i < v.len()
        invariant
            0 <= i <= v.len(),
            out@.len() == i,
            forall|j: int|
                0 <= j < i ==> #[trigger] station_matches_qrow(out@[j], v@[j], links@),
        decreases v.len() - i,
    {
        out.push(station_from_qrow(&v[i], links));
        i = i + 1;
    }
    out
}

/// Every row's coordinates are within the globe's bounds.
pub open spec fn coords_in_range(rows: Seq<StationRow>) -> bool {
    forall|i: int|
        0 <= i < rows.len() ==> coord_in_range(#[trigger] rows[i].lat) && coord_in_range(
            rows[i].lon,
        )
}

/// Collect the active rows of a line.
fn collect_by_line(rows: &Vec<StationRow>, line_cd: u32) -> (r: Vec<StationQueryRow>)
    ensures
        r@ == rows_by_line(rows@, line_cd),
{
    let mut acc: Vec<StationQueryRow> = Vec::new();
    let mut i: usize = 0;
    while i < rows.len()
        invariant
            0 <= i <= rows.len(),
            acc@ == rows_by_line(rows@.take(i as int), line_cd),
        decreases rows.len() - i,
    {
        proof {
            assert(rows@.take(i + 1).drop_last() =~= rows@.take(i as int));
            assert(rows@.take(i + 1).last() == rows@[i as int]);
        }
        if rows[i].e_status == 0 && rows[i].line_cd == line_cd {
            acc.push(StationQueryRow { row: rows[i].clone(), pass: 0, distance: None });
        }
        i = i + 1;
    }
    proof {
        assert(rows@.take(rows@.len() as int) =~= rows@);
    }
    acc
}

/// Collect the active rows of a station group.
fn collect_by_group(rows: &Vec<StationRow>, station_g_cd: u32) -> (r: Vec<StationQueryRow>)
    ensures
        r@ == rows_by_group(rows@, station_g_cd),
{
    let mut acc: Vec<StationQueryRow> = Vec::new();
    let mut i: usize = 0;
    while i < rows.len()
        invariant
            0 <= i <= rows.len(),
            acc@ == rows_by_group(rows@.take(i as int), station_g_cd),
        decreases rows.len() - i,
    {
        proof {
            assert(rows@.take(i + 1).drop_last() =~= rows@.take(i as int));
            assert(rows@.take(i + 1).last() == rows@[i as int]);
        }
        if rows[i].e_status == 0 && rows[i].station_g_cd == station_g_cd {
            acc.push(StationQueryRow { row: rows[i].clone(), pass: 0, distance: None });
        }
        i = i + 1;
    }
    proof {
        assert(rows@.take(rows@.len() as int) =~= rows@);
    }
    acc
}

/// Collect the active rows whose names match the query.
fn collect_by_name(rows: &Vec<StationRow>, q: &str) -> (r: Vec<StationQueryRow>)
    ensures
        r@ == rows_by_name(rows@, q@),
{
    let mut acc: Vec<StationQueryRow> = Vec::new();
    let mut i: usize = 0;
    while i < rows.len()
        invariant
            0 <= i <= rows.len(),
            acc@ == rows_by_name(rows@.take(i as int), q@),
        decreases rows.len() - i,
    {
        proof {
            assert(rows@.take(i + 1).drop_last() =~= rows@.take(i as int));
            assert(rows@.take(i + 1).last() == rows@[i as int]);
        }
        if rows[i].e_status == 0 && row_name_matches(&rows[i], q) {
            acc.push(StationQueryRow { row: rows[i].clone(), pass: 0, distance: None });
        }
        i = i + 1;
    }
    proof {
        assert(rows@.take(rows@.len() as int) =~= rows@);
    }
    acc
}

/// Collect every active row, annotated with its squared planar offset
/// from the query position.
fn collect_with_distance(rows: &Vec<StationRow>, lat: i64, lon: i64) -> (r: Vec<StationQueryRow>)
    requires
        coords_in_range(rows@),
        coord_in_range(lat),
        coord_in_range(lon),
    ensures
        r@ == rows_with_distance(rows@, lat, lon),
{
    let mut acc: Vec<StationQueryRow> = Vec::new();
    let mut i: usize = 0;
    while i < rows.len()
        invariant
            0 <= i <= rows.len(),
            coords_in_range(rows@),
            coord_in_range(lat),
            coord_in_range(lon),
            acc@ == rows_with_distance(rows@.take(i as int), lat, lon),
        decreases rows.len() - i,
    {
        proof {
            assert(rows@.take(i + 1).drop_last() =~= rows@.take(i as int));
            assert(rows@.take(i + 1).last() == rows@[i as int]);
        }
        if rows[i].e_status == 0 {
            let d = compute_distance(rows[i].lat, rows[i].lon, lat, lon);
            acc.push(StationQueryRow { row: rows[i].clone(), pass: 0, distance: Some(d) });
        }
        i = i + 1;
    }
    proof {
        assert(rows@.take(rows@.len() as int) =~= rows@);
    }
    acc
}

/// Collect the rows reached from a line group through the links.
fn collect_by_line_group(
    links: &Vec<StationStopLink>,
    rows: &Vec<StationRow>,
    line_group_cd: u32,
) -> (r: Vec<StationQueryRow>)
    ensures
        r@ == rows_by_line_group(links@, rows@, line_group_cd),
{
    let mut acc: Vec<StationQueryRow> = Vec::new();
    let mut i: usize = 0;
    while i < links.len()
        invariant
            0 <= i <= links.len(),
            acc@ == rows_by_line_group(links@.take(i as int), rows@, line_group_cd),
        decreases links.len() - i,
    {
        proof {
            assert(links@.take(i + 1).drop_last() =~= links@.take(i as int));
            assert(links@.take(i + 1).last() == links@[i as int]);
        }
        if links[i].line_group_cd == line_group_cd {
            match find_station_row_exec(rows, links[i].station_cd) {
                Some(row) => {
                    acc.push(StationQueryRow { row, pass: links[i].pass, distance: None });
                },
                None => {},
            }
        }
        i = i + 1;
    }
    proof {
        assert(links@.take(links@.len() as int) =~= links@);
    }
    acc
}

/// The in-memory station query engine.  Each function is the semantics of
/// one provider lookup over plain row tables.
pub struct InternalStationRepository {}

impl InternalStationRepository {
    /// Look a station up by id, active rows only.
    pub fn find_by_id(
        id: u32,
        stations: &Vec<StationRow>,
        links: &Vec<StationStopLink>,
    ) -> (r: Option<Station>)
        ensures
            match find_station_row(stations@, id) {
                Option::Some(row) => r is Some && station_matches_qrow(
                    r->0,
                    qrow_plain(row),
                    links@,
                ),
                Option::None => r is None,
            },
    {
        match find_station_row_exec(stations, id) {
            Some(row) => Some(
                station_from_qrow(&StationQueryRow { row, pass: 0, distance: None }, links),
            ),
            None => None,
        }
    }

    /// The stations of a line, active only, in the standard order.
    pub fn get_by_line_id(
        line_id: u32,
        stations: &Vec<StationRow>,
        links: &Vec<StationStopLink>,
    ) -> (r: Vec<Station>)
        ensures
            ({
                let sel = sort_by_order(rows_by_line(stations@, line_id));
                r@.len() == sel.len() && forall|i: int|
                    0 <= i < sel.len() ==> #[trigger] station_matches_qrow(r@[i], sel[i], links@)
            }),
    {
        let acc = collect_by_line(stations, line_id);
        let sorted = sort_rows_by_order(&acc);
        stations_from_qrows(&sorted, links)
    }

    /// The stations of a station group, active only, in the standard
    /// order.
    pub fn get_by_station_group_id(
        station_group_id: u32,
        stations: &Vec<StationRow>,
        links: &Vec<StationStopLink>,
    ) -> (r: Vec<Station>)
        ensures
            ({
                let sel = sort_by_order(rows_by_group(stations@, station_group_id));
                r@.len() == sel.len() && forall|i: int|
                    0 <= i < sel.len() ==> #[trigger] station_matches_qrow(r@[i], sel[i], links@)
            }),
    {
        let acc = collect_by_group(stations, station_group_id);
        let sorted = sort_rows_by_order(&acc);
        stations_from_qrows(&sorted, links)
    }

    /// Free-text name search: case-insensitive substring containment
    /// over every localized name field (ASCII case folding; other
    /// scripts match exactly), the standard order, truncated to the
    /// limit (one row when the limit is omitted).
    pub fn get_by_name(
        station_name: &str,
        limit: Option<u32>,
        stations: &Vec<StationRow>,
        links: &Vec<StationStopLink>,
    ) -> (r: Vec<Station>)
        ensures
            ({
                let sel = take_limit(sort_by_order(rows_by_name(stations@, station_name@)), limit);
                r@.len() == sel.len() && forall|i: int|
                    0 <= i < sel.len() ==> #[trigger] station_matches_qrow(r@[i], sel[i], links@)
            }),
    {
        let acc = collect_by_name(stations, station_name);
        let sorted = sort_rows_by_order(&acc);
        let limited = take_rows(&sorted, limit);
        stations_from_qrows(&limited, links)
    }

    /// Rank rows already annotated with a proximity distance: ascending
    /// by it, one representative per station group, truncated to the
    /// limit (the nearest one when the limit is omitted).  For callers
    /// whose storage collaborator computes the distance itself — the
    /// distance unit is the caller's, and the ranking is verified
    /// whatever it hands in.
    pub fn rank_by_distance(
        rows: &Vec<StationQueryRow>,
        limit: Option<u32>,
        links: &Vec<StationStopLink>,
    ) -> (r: Vec<Station>)
        ensures
            ({
                let sel = take_limit(dedup_groups(sort_by_dist(rows@)), limit);
                r@.len() == sel.len() && forall|i: int|
                    0 <= i < sel.len() ==> #[trigger] station_matches_qrow(r@[i], sel[i], links@)
            }),
    {
        let sorted = sort_rows_by_dist(rows);
        let deduped = dedup_by_group(&sorted);
        let limited = take_rows(&deduped, limit);
        stations_from_qrows(&limited, links)
    }

    /// Proximity search over the in-memory table: active rows annotated
    /// with the squared planar micro-degree offset — the deterministic
    /// in-memory measure — then ranked as in [`Self::rank_by_distance`].
    pub fn get_by_coordinates(
        latitude: i64,
        longitude: i64,
        limit: Option<u32>,
        stations: &Vec<StationRow>,
        links: &Vec<StationStopLink>,
    ) -> (r: Vec<Station>)
        requires
            coords_in_range(stations@),
            coord_in_range(latitude),
            coord_in_range(longitude),
        ensures
            ({
                let sel = take_limit(
                    dedup_groups(sort_by_dist(rows_with_distance(stations@, latitude, longitude))),
                    limit,
                );
                r@.len() == sel.len() && forall|i: int|
                    0 <= i < sel.len() ==> #[trigger] station_matches_qrow(r@[i], sel[i], links@)
            }),
    {
        let acc = collect_with_distance(stations, latitude, longitude);
        Self::rank_by_distance(&acc, limit, links)
    }

    /// The stations reached from a line group through the service-pattern
    /// links, each with its link's stop classification, in the standard
    /// order.
    pub fn get_by_line_group_id(
        line_group_id: u32,
        stations: &Vec<StationRow>,
        links: &Vec<StationStopLink>,
    ) -> (r: Vec<Station>)
        ensures
            ({
                let sel = sort_by_order(rows_by_line_group(links@, stations@, line_group_id));
                r@.len() == sel.len() && forall|i: int|
                    0 <= i < sel.len() ==> #[trigger] station_matches_qrow(r@[i], sel[i], links@)
            }),
    {
        let acc = collect_by_line_group(links, stations, line_group_id);
        let sorted = sort_rows_by_order(&acc);
        stations_from_qrows(&sorted, links)
    }
}

/// An in-memory station provider over plain row tables: the deterministic
/// implementation of the station repository contract.
pub struct MemoryStationRepository {
    pub stations: Vec<StationRow>,
    pub stop_links: Vec<StationStopLink>,
}

impl MemoryStationRepository {
    /// Build a provider over the given tables.
    pub fn new(stations: Vec<StationRow>, stop_links: Vec<StationStopLink>) -> (r: Self)
        ensures
            r == (MemoryStationRepository { stations, stop_links }),
    {
        MemoryStationRepository { stations, stop_links }
    }

    /// Look a station up by id, active rows only.
    pub fn find_by_id(&self, id: u32) -> (r: Option<Station>)
        ensures
            match find_station_row(self.stations@, id) {
                Option::Some(row) => r is Some && station_matches_qrow(
                    r->0,
                    qrow_plain(row),
                    self.stop_links@,
                ),
                Option::None => r is None,
            },
    {
        InternalStationRepository::find_by_id(id, &self.stations, &self.stop_links)
    }

    /// The stations of a line, active only, in the standard order.
    pub fn get_by_line_id(&self, line_id: u32) -> (r: Vec<Station>)
        ensures
            ({
                let sel = sort_by_order(rows_by_line(self.stations@, line_id));
                r@.len() == sel.len() && forall|i: int|
                    0 <= i < sel.len() ==> #[trigger] station_matches_qrow(
                        r@[i],
                        sel[i],
                        self.stop_links@,
                    )
            }),
    {
        InternalStationRepository::get_by_line_id(line_id, &self.stations, &self.stop_links)
    }

    /// The stations of a station group, active only, in the standard
    /// order.
    pub fn get_by_station_group_id(&self, station_group_id: u32) -> (r: Vec<Station>)
        ensures
            ({
                let sel = sort_by_order(rows_by_group(self.stations@, station_group_id));
                r@.len() == sel.len() && forall|i: int|
                    0 <= i < sel.len() ==> #[trigger] station_matches_qrow(
                        r@[i],
                        sel[i],
                        self.stop_links@,
                    )
            }),
    {
        InternalStationRepository::get_by_station_group_id(
            station_group_id,
            &self.stations,
            &self.stop_links,
        )
    }

    /// Free-text name search over every localized name field,
    /// case-insensitive up to ASCII case.
    pub fn get_by_name(&self, station_name: &str, limit: Option<u32>) -> (r: Vec<Station>)
        ensures
            ({
                let sel = take_limit(
                    sort_by_order(rows_by_name(self.stations@, station_name@)),
                    limit,
                );
                r@.len() == sel.len() && forall|i: int|
                    0 <= i < sel.len() ==> #[trigger] station_matches_qrow(
                        r@[i],
                        sel[i],
                        self.stop_links@,
                    )
            }),
    {
        InternalStationRepository::get_by_name(station_name, limit, &self.stations, &self.stop_links)
    }

    /// Proximity search, ascending by computed distance, one
    /// representative per station group, truncated to the limit.
    pub fn get_by_coordinates(&self, latitude: i64, longitude: i64, limit: Option<u32>) -> (r:
        Vec<Station>)
        requires
            coords_in_range(self.stations@),
            coord_in_range(latitude),
            coord_in_range(longitude),
        ensures
            ({
                let sel = take_limit(
                    dedup_groups(
                        sort_by_dist(rows_with_distance(self.stations@, latitude, longitude)),
                    ),
                    limit,
                );
                r@.len() == sel.len() && forall|i: int|
                    0 <= i < sel.len() ==> #[trigger] station_matches_qrow(
                        r@[i],
                        sel[i],
                        self.stop_links@,
                    )
            }),
    {
        InternalStationRepository::get_by_coordinates(
            latitude,
            longitude,
            limit,
            &self.stations,
            &self.stop_links,
        )
    }

    /// The stations reached from a line group, with stop classifications.
    pub fn get_by_line_group_id(&self, line_group_id: u32) -> (r: Vec<Station>)
        ensures
            ({
                let sel = sort_by_order(
                    rows_by_line_group(self.stop_links@, self.stations@, line_group_id),
                );
                r@.len() == sel.len() && forall|i: int|
                    0 <= i < sel.len() ==> #[trigger] station_matches_qrow(
                        r@[i],
                        sel[i],
                        self.stop_links@,
                    )
            }),
    {
        InternalStationRepository::get_by_line_group_id(
            line_group_id,
            &self.stations,
            &self.stop_links,
        )
    }
}

/// What the first-match station lookup returns: an active row with the
/// requested id, or nothing only when the table has none.
pub proof fn lemma_find_station_row_props(rows: Seq<StationRow>, station_cd: u32)
    ensures
        match find_station_row(rows, station_cd) {
            Option::Some(row) => row.e_status == 0 && row.station_cd == station_cd
                && rows.contains(row),
            Option::None => forall|i: int|
                0 <= i < rows.len() ==> !(#[trigger] rows[i].e_status == 0 && rows[i].station_cd
                    == station_cd),
        },
    decreases rows.len(),
{
    if rows.len() > 0 {
        if rows[0].e_status == 0 && rows[0].station_cd == station_cd {
        } else {
            lemma_find_station_row_props(rows.drop_first(), station_cd);
            match find_station_row(rows, station_cd) {
                Option::Some(row) => {
                    assert(rows.drop_first().contains(row));
                    let j = choose|j: int|
                        0 <= j < rows.drop_first().len() && rows.drop_first()[j] == row;
                    assert(rows[j + 1] == row);
                },
                Option::None => {
                    assert forall|i: int|
                        0 <= i < rows.len() implies !(#[trigger] rows[i].e_status == 0
                        && rows[i].station_cd == station_cd) by {
                        if i > 0 {
                            assert(rows.drop_first()[i - 1] == rows[i]);
                        }
                    }
                },
            }
        }
    }
}

/// Ascending distance order over a whole selection.
pub open spec fn sorted_by_dist(s: Seq<StationQueryRow>) -> bool {
    forall|i: int, j: int| 0 <= i <= j < s.len() ==> le_dist(#[trigger] s[i], #[trigger] s[j])
}

/// Insertion keeps a distance-sorted selection sorted.
proof fn lemma_insert_by_dist_sorted(s: Seq<StationQueryRow>, x: StationQueryRow)
    requires
        sorted_by_dist(s),
    ensures
        sorted_by_dist(insert_by_dist(s, x)),
        forall|k: int|
            0 <= k < insert_by_dist(s, x).len() ==> s.contains(#[trigger] insert_by_dist(s, x)[k])
                || insert_by_dist(s, x)[k] == x,
    decreases s.len(),
{
    let r = insert_by_dist(s, x);
    if s.len() == 0 {
    } else if le_dist(s.last(), x) {
        assert forall|i: int, j: int| 0 <= i <= j < r.len() implies le_dist(
            #[trigger] r[i],
            #[trigger] r[j],
        ) by {
            if j < s.len() {
            } else {
                if i < s.len() {
                    assert(le_dist(s[i], s.last()));
                }
            }
        }
        assert forall|k: int| 0 <= k < r.len() implies s.contains(#[trigger] r[k]) || r[k] == x by {
            if k < s.len() {
                assert(s[k] == r[k]);
            }
        }
    } else {
        let s2 = s.drop_last();
        assert(sorted_by_dist(s2)) by {
            assert(forall|i: int, j: int|
                0 <= i <= j < s2.len() ==> le_dist(#[trigger] s[i], #[trigger] s[j]));
        }
        lemma_insert_by_dist_sorted(s2, x);
        let r2 = insert_by_dist(s2, x);
        // r == r2.push(s.last()); s.last() is greater than x and at least
        // every element of s2, so it closes the sorted sequence.
        assert forall|i: int, j: int| 0 <= i <= j < r.len() implies le_dist(
            #[trigger] r[i],
            #[trigger] r[j],
        ) by {
            if j == r.len() - 1 {
                if i < r.len() - 1 {
                    assert(r[i] == r2[i]);
                    if r2[i] == x {
                        assert(!le_dist(s.last(), x));
                        assert(le_dist(x, s.last()));
                    } else {
                        assert(s2.contains(r2[i]));
                        let w = choose|w: int| 0 <= w < s2.len() && s2[w] == r2[i];
                        assert(le_dist(s[w], s.last()));
                    }
                }
            } else {
                assert(r[i] == r2[i] && r[j] == r2[j]);
            }
        }
        assert forall|k: int| 0 <= k < r.len() implies s.contains(#[trigger] r[k]) || r[k] == x by {
            if k < r.len() - 1 {
                assert(r[k] == r2[k]);
                if r2[k] != x {
                    assert(s2.contains(r2[k]));
                    let w = choose|w: int| 0 <= w < s2.len() && s2[w] == r2[k];
                    assert(s[w] == s2[w]);
                }
            } else {
                assert(r[k] == s.last());
            }
        }
    }
}

/// The distance sort sorts, and invents no rows.
proof fn lemma_sort_by_dist_sorted(s: Seq<StationQueryRow>)
    ensures
        sorted_by_dist(sort_by_dist(s)),
        forall|k: int|
            0 <= k < sort_by_dist(s).len() ==> s.contains(#[trigger] sort_by_dist(s)[k]),
    decreases s.len(),
{
    if s.len() > 0 {
        lemma_sort_by_dist_sorted(s.drop_last());
        lemma_insert_by_dist_sorted(sort_by_dist(s.drop_last()), s.last());
        assert forall|k: int| 0 <= k < sort_by_dist(s).len() implies s.contains(
            #[trigger] sort_by_dist(s)[k],
        ) by {
            let r = sort_by_dist(s);
            if r[k] == s.last() {
                assert(s[s.len() - 1] == s.last());
            } else {
                assert(sort_by_dist(s.drop_last()).contains(r[k]) || r[k] == s.last());
                if sort_by_dist(s.drop_last()).contains(r[k]) {
                    let w = choose|w: int|
                        0 <= w < sort_by_dist(s.drop_last()).len() && sort_by_dist(s.drop_last())[w]
                            == r[k];
                    assert(s.drop_last().contains(sort_by_dist(s.drop_last())[w]));
                    let v = choose|v: int|
                        0 <= v < s.drop_last().len() && s.drop_last()[v] == r[k];
                    assert(s[v] == r[k]);
                }
            }
        }
    }
}

/// Group deduplication keeps the order, invents no rows, and leaves no
/// two rows of one station group.
proof fn lemma_dedup_groups_props(s: Seq<StationQueryRow>)
    ensures
        forall|k: int| 0 <= k < dedup_groups(s).len() ==> s.contains(#[trigger] dedup_groups(s)[k]),
        sorted_by_dist(s) ==> sorted_by_dist(dedup_groups(s)),
        forall|i: int, j: int|
            0 <= i < j < dedup_groups(s).len() ==> (#[trigger] dedup_groups(s)[i]).row.station_g_cd
                != (#[trigger] dedup_groups(s)[j]).row.station_g_cd,
    decreases s.len(),
{
    if s.len() > 0 {
        let s2 = s.drop_last();
        lemma_dedup_groups_props(s2);
        let d2 = dedup_groups(s2);
        assert(forall|k: int| 0 <= k < d2.len() ==> s2.contains(#[trigger] d2[k]));
        assert forall|k: int| 0 <= k < d2.len() implies s.contains(#[trigger] d2[k]) by {
            let w = choose|w: int| 0 <= w < s2.len() && s2[w] == d2[k];
            assert(s[w] == d2[k]);
        }
        if sorted_by_dist(s) {
            assert(sorted_by_dist(s2)) by {
                assert(forall|i: int, j: int|
                    0 <= i <= j < s2.len() ==> le_dist(#[trigger] s[i], #[trigger] s[j]));
            }
        }
        if group_in(s2, s.last().row.station_g_cd) {
            assert(s.contains(s[s.len() - 1]));
        } else {
            let d = dedup_groups(s);
            assert(d == d2.push(s.last()));
            assert forall|k: int| 0 <= k < d.len() implies s.contains(#[trigger] d[k]) by {
                if k < d2.len() {
                    assert(d[k] == d2[k]);
                } else {
                    assert(d[k] == s[s.len() - 1]);
                }
            }
            if sorted_by_dist(s) {
                assert(sorted_by_dist(s2));
                assert forall|i: int, j: int| 0 <= i <= j < d.len() implies le_dist(
                    #[trigger] d[i],
                    #[trigger] d[j],
                ) by {
                    if j == d.len() - 1 {
                        if i < d.len() - 1 {
                            assert(s2.contains(d2[i]));
                            let w = choose|w: int| 0 <= w < s2.len() && s2[w] == d2[i];
                            assert(le_dist(s[w], s[s.len() - 1]));
                        }
                    } else {
                        assert(d[i] == d2[i] && d[j] == d2[j]);
                    }
                }
            }
            assert forall|i: int, j: int| 0 <= i < j < d.len() implies (
            #[trigger] d[i]).row.station_g_cd != (#[trigger] d[j]).row.station_g_cd by {
                if j == d.len() - 1 {
                    assert(s2.contains(d2[i]));
                    let w = choose|w: int| 0 <= w < s2.len() && s2[w] == d2[i];
                    assert(!group_in(s2, s.last().row.station_g_cd));
                    assert(s2[w].row.station_g_cd != s.last().row.station_g_cd);
                } else {
                    assert(d[i] == d2[i] && d[j] == d2[j]);
                }
            }
        }
    }
}

/// Proximity search returns at most `limit` rows, in ascending distance
/// order, with at most one representative per station group.
pub proof fn lemma_coordinate_selection(
    rows: Seq<StationRow>,
    lat: i64,
    lon: i64,
    limit: Option<u32>,
)
    ensures
        ({
            let sel = take_limit(
                dedup_groups(sort_by_dist(rows_with_distance(rows, lat, lon))),
                limit,
            );
            &&& sel.len() <= limit_val(limit)
            &&& forall|i: int, j: int|
                0 <= i <= j < sel.len() ==> dist_val(#[trigger] sel[i]) <= dist_val(
                    #[trigger] sel[j],
                )
            &&& forall|i: int, j: int|
                0 <= i < j < sel.len() ==> (#[trigger] sel[i]).row.station_g_cd != (
                #[trigger] sel[j]).row.station_g_cd
        }),
{
    let base = rows_with_distance(rows, lat, lon);
    lemma_sort_by_dist_sorted(base);
    lemma_dedup_groups_props(sort_by_dist(base));
    let d = dedup_groups(sort_by_dist(base));
    let sel = take_limit(d, limit);
    assert(forall|k: int| 0 <= k < sel.len() ==> sel[k] == d[k]);
}

/// The standard listing order over a whole selection.
pub open spec fn sorted_by_order(s: Seq<StationQueryRow>) -> bool {
    forall|i: int, j: int| 0 <= i <= j < s.len() ==> le_order(#[trigger] s[i], #[trigger] s[j])
}

/// Insertion keeps an order-sorted selection sorted.
proof fn lemma_insert_by_order_sorted(s: Seq<StationQueryRow>, x: StationQueryRow)
    requires
        sorted_by_order(s),
    ensures
        sorted_by_order(insert_by_order(s, x)),
    decreases s.len(),
{
    let r = insert_by_order(s, x);
    if s.len() == 0 {
    } else if le_order(s.last(), x) {
        assert forall|i: int, j: int| 0 <= i <= j < r.len() implies le_order(
            #[trigger] r[i],
            #[trigger] r[j],
        ) by {
            if j == r.len() - 1 {
                if i < s.len() {
                    assert(le_order(s[i], s.last()));
                }
            }
        }
    } else {
        let s2 = s.drop_last();
        assert(sorted_by_order(s2)) by {
            assert(forall|i: int, j: int|
                0 <= i <= j < s2.len() ==> le_order(#[trigger] s[i], #[trigger] s[j]));
        }
        lemma_insert_by_order_sorted(s2, x);
        lemma_insert_by_order_elements(s2, x);
        let r2 = insert_by_order(s2, x);
        assert forall|i: int, j: int| 0 <= i <= j < r.len() implies le_order(
            #[trigger] r[i],
            #[trigger] r[j],
        ) by {
            if j == r.len() - 1 {
                if i < r.len() - 1 {
                    assert(r[i] == r2[i]);
                    if r2[i] == x {
                        assert(le_order(x, s.last()));
                    } else {
                        assert(s2.contains(r2[i]));
                        let w = choose|w: int| 0 <= w < s2.len() && s2[w] == r2[i];
                        assert(le_order(s[w], s.last()));
                    }
                }
            } else {
                assert(r[i] == r2[i] && r[j] == r2[j]);
            }
        }
    }
}

/// Insertion invents no rows.
proof fn lemma_insert_by_order_elements(s: Seq<StationQueryRow>, x: StationQueryRow)
    ensures
        forall|k: int|
            0 <= k < insert_by_order(s, x).len() ==> s.contains(#[trigger] insert_by_order(s, x)[k])
                || insert_by_order(s, x)[k] == x,
    decreases s.len(),
{
    let r = insert_by_order(s, x);
    if s.len() == 0 {
    } else if le_order(s.last(), x) {
        assert forall|k: int| 0 <= k < r.len() implies s.contains(#[trigger] r[k]) || r[k] == x by {
            if k < s.len() {
                assert(s[k] == r[k]);
            }
        }
    } else {
        let s2 = s.drop_last();
        lemma_insert_by_order_elements(s2, x);
        let r2 = insert_by_order(s2, x);
        assert forall|k: int| 0 <= k < r.len() implies s.contains(#[trigger] r[k]) || r[k] == x by {
            if k < r2.len() {
                assert(r[k] == r2[k]);
                if r2[k] != x {
                    assert(s2.contains(r2[k]));
                    let w = choose|w: int| 0 <= w < s2.len() && s2[w] == r2[k];
                    assert(s[w] == s2[w]);
                }
            } else {
                assert(r[k] == s[s.len() - 1]);
            }
        }
    }
}

/// Every station listing comes back in the standard order: secondary
/// sort field, then primary identifier, ascending.
pub proof fn lemma_standard_listing_sorted(s: Seq<StationQueryRow>)
    ensures
        sorted_by_order(sort_by_order(s)),
    decreases s.len(),
{
    if s.len() > 0 {
        lemma_standard_listing_sorted(s.drop_last());
        lemma_insert_by_order_sorted(sort_by_order(s.drop_last()), s.last());
    }
}

} // verus!
