//! In-memory line provider: raw line rows, the station-keyed alias table,
//! and the query semantics of the line repository — status filtering,
//! per-field alias coalescing, station-join context annotations, and the
//! standard (`e_sort`, `line_cd`) ordering.

use vstd::prelude::*;

use crate::line::Line;
use crate::text::{contains_ci, opt_contains_ci};
use crate::station_repository::{
    StationRow, StationStopLink, find_station_row, find_station_row_exec,
};

verus! {

/// A raw row of the lines table.  `average_distance` is held in
/// millimetres so the row stays in integer arithmetic.
pub struct LineRow {
    pub line_cd: u32,
    pub company_cd: u32,
    pub line_type: Option<u32>,
    pub line_name: Option<String>,
    pub line_name_k: Option<String>,
    pub line_name_h: Option<String>,
    pub line_name_r: Option<String>,
    pub line_name_zh: Option<String>,
    pub line_name_ko: Option<String>,
    pub line_color_c: Option<String>,
    pub line_symbol_primary: Option<String>,
    pub line_symbol_secondary: Option<String>,
    pub line_symbol_extra: Option<String>,
    pub line_symbol_primary_color: Option<String>,
    pub line_symbol_secondary_color: Option<String>,
    pub line_symbol_extra_color: Option<String>,
    pub line_symbol_primary_shape: Option<String>,
    pub line_symbol_secondary_shape: Option<String>,
    pub line_symbol_extra_shape: Option<String>,
    pub e_status: u32,
    pub e_sort: u32,
    pub average_distance: i64,
}

impl Clone for LineRow {
    fn clone(&self) -> (r: Self)
        ensures
            r == *self,
    {
        LineRow {
            line_cd: self.line_cd,
            company_cd: self.company_cd,
            line_type: crate::line::clone_opt_u32(&self.line_type),
            line_name: crate::line::clone_opt_string(&self.line_name),
            line_name_k: crate::line::clone_opt_string(&self.line_name_k),
            line_name_h: crate::line::clone_opt_string(&self.line_name_h),
            line_name_r: crate::line::clone_opt_string(&self.line_name_r),
            line_name_zh: crate::line::clone_opt_string(&self.line_name_zh),
            line_name_ko: crate::line::clone_opt_string(&self.line_name_ko),
            line_color_c: crate::line::clone_opt_string(&self.line_color_c),
            line_symbol_primary: crate::line::clone_opt_string(&self.line_symbol_primary),
            line_symbol_secondary: crate::line::clone_opt_string(&self.line_symbol_secondary),
            line_symbol_extra: crate::line::clone_opt_string(&self.line_symbol_extra),
            line_symbol_primary_color: crate::line::clone_opt_string(
                &self.line_symbol_primary_color,
            ),
            line_symbol_secondary_color: crate::line::clone_opt_string(
                &self.line_symbol_secondary_color,
            ),
            line_symbol_extra_color: crate::line::clone_opt_string(&self.line_symbol_extra_color),
            line_symbol_primary_shape: crate::line::clone_opt_string(
                &self.line_symbol_primary_shape,
            ),
            line_symbol_secondary_shape: crate::line::clone_opt_string(
                &self.line_symbol_secondary_shape,
            ),
            line_symbol_extra_shape: crate::line::clone_opt_string(&self.line_symbol_extra_shape),
            e_status: self.e_status,
            e_sort: self.e_sort,
            average_distance: self.average_distance,
        }
    }
}

/// One row of the station-keyed alias table, already joined with its
/// alias record: per-field overrides for the names and color of the line
/// serving that station.
pub struct LineAliasRow {
    pub station_cd: u32,
    pub line_name: Option<String>,
    pub line_name_k: Option<String>,
    pub line_name_h: Option<String>,
    pub line_name_r: Option<String>,
    pub line_name_zh: Option<String>,
    pub line_name_ko: Option<String>,
    pub line_color_c: Option<String>,
}

impl Clone for LineAliasRow {
    fn clone(&self) -> (r: Self)
        ensures
            r == *self,
    {
        LineAliasRow {
            station_cd: self.station_cd,
            line_name: crate::line::clone_opt_string(&self.line_name),
            line_name_k: crate::line::clone_opt_string(&self.line_name_k),
            line_name_h: crate::line::clone_opt_string(&self.line_name_h),
            line_name_r: crate::line::clone_opt_string(&self.line_name_r),
            line_name_zh: crate::line::clone_opt_string(&self.line_name_zh),
            line_name_ko: crate::line::clone_opt_string(&self.line_name_ko),
            line_color_c: crate::line::clone_opt_string(&self.line_color_c),
        }
    }
}

/// A line row selected by a query, together with its station-join
/// context, all absent outside station-join queries.
pub struct LineCtxRow {
    pub line: LineRow,
    pub station_cd: Option<u32>,
    pub station_g_cd: Option<u32>,
    pub line_group_cd: Option<u32>,
}

impl Clone for LineCtxRow {
    fn clone(&self) -> (r: Self)
        ensures
            r == *self,
    {
        LineCtxRow {
            line: self.line.clone(),
            station_cd: crate::line::clone_opt_u32(&self.station_cd),
            station_g_cd: crate::line::clone_opt_u32(&self.station_g_cd),
            line_group_cd: crate::line::clone_opt_u32(&self.line_group_cd),
        }
    }
}

/// A row selected without station-join context.
pub open spec fn plain_ctx(row: LineRow) -> LineCtxRow {
    LineCtxRow {
        line: row,
        station_cd: Option::None,
        station_g_cd: Option::None,
        line_group_cd: Option::None,
    }
}

/// The first alias row for the context station, if the query had one.
pub open spec fn find_alias(aliases: Seq<LineAliasRow>, station_cd: Option<u32>)
    -> Option<LineAliasRow>
    decreases aliases.len(),
{
    match station_cd {
        Option::None => Option::None,
        Option::Some(cd) => {
            if aliases.len() == 0 {
                Option::None
            } else if aliases[0].station_cd == cd {
                Option::Some(aliases[0])
            } else {
                find_alias(aliases.drop_first(), station_cd)
            }
        },
    }
}

/// Scan the alias table for the context station's override record.
fn find_alias_exec(aliases: &Vec<LineAliasRow>, station_cd: &Option<u32>) -> (r: Option<
    LineAliasRow,
>)
    ensures
        r == find_alias(aliases@, *station_cd),
{
    let cd: u32 = match station_cd {
        Some(c) => *c,
        None => {
            return None;
        },
    };
    let mut i: usize = 0;
    proof {
        assert(aliases@.skip(0) =~= aliases@);
    }
    while i < aliases.len()
        invariant
            0 <= i <= aliases.len(),
            *station_cd == Option::<u32>::Some(cd),
            find_alias(aliases@, *station_cd) == find_alias(aliases@.skip(i as int), *station_cd),
        decreases aliases.len() - i,
    {
        if aliases[i].station_cd == cd {
            assert(aliases@.skip(i as int)[0] == aliases@[i as int]);
            return Some(aliases[i].clone());
        }
        proof {
            assert(aliases@.skip(i as int).drop_first() =~= aliases@.skip(i + 1));
        }
        i = i + 1;
    }
    assert(aliases@.skip(i as int).len() == 0);
    None
}

/// First present of the two optional columns, viewed; empty when both are
/// absent.
pub open spec fn coalesce_view(a: Option<String>, b: Option<String>) -> Seq<char> {
    match a {
        Option::Some(s) => s@,
        Option::None => match b {
            Option::Some(s) => s@,
            Option::None => Seq::empty(),
        },
    }
}

/// First present of the two optional columns, kept optional.
pub open spec fn coalesce_opt(a: Option<String>, b: Option<String>) -> Option<String> {
    if a is Some {
        a
    } else {
        b
    }
}

/// First present of the two optional columns, defaulting to empty.
fn coalesce_string(a: &Option<String>, b: &Option<String>) -> (r: String)
    ensures
        r@ == coalesce_view(*a, *b),
{
    match a {
        Some(s) => s.clone(),
        None => match b {
            Some(s) => s.clone(),
            None => String::new(),
        },
    }
}

/// First present of the two optional columns, cloned.
fn coalesce_opt_string(a: &Option<String>, b: &Option<String>) -> (r: Option<String>)
    ensures
        r == coalesce_opt(*a, *b),
{
    match a {
        Some(s) => Some(s.clone()),
        None => crate::line::clone_opt_string(b),
    }
}

/// An absent numeric column read as zero.
pub open spec fn u32_or_zero(o: Option<u32>) -> u32 {
    match o {
        Option::Some(v) => v,
        Option::None => 0,
    }
}

/// The name override of the alias record, per field.
pub open spec fn alias_line_name(al: Option<LineAliasRow>) -> Option<String> {
    match al {
        Option::Some(a) => a.line_name,
        Option::None => Option::None,
    }
}

/// The katakana-name override of the alias record.
pub open spec fn alias_line_name_k(al: Option<LineAliasRow>) -> Option<String> {
    match al {
        Option::Some(a) => a.line_name_k,
        Option::None => Option::None,
    }
}

/// The full-name override of the alias record.
pub open spec fn alias_line_name_h(al: Option<LineAliasRow>) -> Option<String> {
    match al {
        Option::Some(a) => a.line_name_h,
        Option::None => Option::None,
    }
}

/// The romanized-name override of the alias record.
pub open spec fn alias_line_name_r(al: Option<LineAliasRow>) -> Option<String> {
    match al {
        Option::Some(a) => a.line_name_r,
        Option::None => Option::None,
    }
}

/// The Chinese-name override of the alias record.
pub open spec fn alias_line_name_zh(al: Option<LineAliasRow>) -> Option<String> {
    match al {
        Option::Some(a) => a.line_name_zh,
        Option::None => Option::None,
    }
}

/// The Korean-name override of the alias record.
pub open spec fn alias_line_name_ko(al: Option<LineAliasRow>) -> Option<String> {
    match al {
        Option::Some(a) => a.line_name_ko,
        Option::None => Option::None,
    }
}

/// The color override of the alias record.
pub open spec fn alias_line_color(al: Option<LineAliasRow>) -> Option<String> {
    match al {
        Option::Some(a) => a.line_color_c,
        Option::None => Option::None,
    }
}

/// The raw columns of the entity agree with the selected row: names and
/// color coalesced per-field against the context station's alias record
/// and the context annotations carried over.  Says nothing of the
/// derived symbol collection.
pub open spec fn line_raw_matches_ctx(l: Line, q: LineCtxRow, aliases: Seq<LineAliasRow>) -> bool {
    let al = find_alias(aliases, q.station_cd);
    &&& l.line_cd == q.line.line_cd
    &&& l.company_cd == q.line.company_cd
    &&& l.line_name@ == coalesce_view(alias_line_name(al), q.line.line_name)
    &&& l.line_name_k@ == coalesce_view(alias_line_name_k(al), q.line.line_name_k)
    &&& l.line_name_h@ == coalesce_view(alias_line_name_h(al), q.line.line_name_h)
    &&& l.line_name_r == coalesce_opt(alias_line_name_r(al), q.line.line_name_r)
    &&& l.line_name_zh == coalesce_opt(alias_line_name_zh(al), q.line.line_name_zh)
    &&& l.line_name_ko == coalesce_opt(alias_line_name_ko(al), q.line.line_name_ko)
    &&& l.line_color_c@ == coalesce_view(alias_line_color(al), q.line.line_color_c)
    &&& l.line_type == u32_or_zero(q.line.line_type)
    &&& l.line_symbol_primary == q.line.line_symbol_primary
    &&& l.line_symbol_secondary == q.line.line_symbol_secondary
    &&& l.line_symbol_extra == q.line.line_symbol_extra
    &&& l.line_symbol_primary_color == q.line.line_symbol_primary_color
    &&& l.line_symbol_secondary_color == q.line.line_symbol_secondary_color
    &&& l.line_symbol_extra_color == q.line.line_symbol_extra_color
    &&& l.line_symbol_primary_shape == q.line.line_symbol_primary_shape
    &&& l.line_symbol_secondary_shape == q.line.line_symbol_secondary_shape
    &&& l.line_symbol_extra_shape == q.line.line_symbol_extra_shape
    &&& l.e_status == q.line.e_status
    &&& l.e_sort == q.line.e_sort
    &&& l.average_distance == q.line.average_distance
    &&& l.line_group_cd == q.line_group_cd
    &&& l.station_cd == q.station_cd
    &&& l.station_g_cd == q.station_g_cd
}

/// The entity built from a selected row: the raw columns as in
/// [`line_raw_matches_ctx`], and the derived symbol collection empty, as
/// every provider returns it.
pub open spec fn line_matches_ctx(l: Line, q: LineCtxRow, aliases: Seq<LineAliasRow>) -> bool {
    line_raw_matches_ctx(l, q, aliases) && l.line_symbols@.len() == 0
}

/// Build the entity for a selected row, resolving alias overrides.
pub fn line_from_ctx(q: &LineCtxRow, aliases: &Vec<LineAliasRow>) -> (l: Line)
    ensures
        line_matches_ctx(l, *q, aliases@),
{
    let al = find_alias_exec(aliases, &q.station_cd);
    let (a_name, a_name_k, a_name_h, a_name_r, a_name_zh, a_name_ko, a_color) = match &al {
        Some(a) => (
            crate::line::clone_opt_string(&a.line_name),
            crate::line::clone_opt_string(&a.line_name_k),
            crate::line::clone_opt_string(&a.line_name_h),
            crate::line::clone_opt_string(&a.line_name_r),
            crate::line::clone_opt_string(&a.line_name_zh),
            crate::line::clone_opt_string(&a.line_name_ko),
            crate::line::clone_opt_string(&a.line_color_c),
        ),
        None => (None, None, None, None, None, None, None),
    };
    Line {
        line_cd: q.line.line_cd,
        company_cd: q.line.company_cd,
        line_name: coalesce_string(&a_name, &q.line.line_name),
        line_name_k: coalesce_string(&a_name_k, &q.line.line_name_k),
        line_name_h: coalesce_string(&a_name_h, &q.line.line_name_h),
        line_name_r: coalesce_opt_string(&a_name_r, &q.line.line_name_r),
        line_name_zh: coalesce_opt_string(&a_name_zh, &q.line.line_name_zh),
        line_name_ko: coalesce_opt_string(&a_name_ko, &q.line.line_name_ko),
        line_color_c: coalesce_string(&a_color, &q.line.line_color_c),
        line_type: match &q.line.line_type {
            Some(t) => *t,
            None => 0,
        },
        line_symbols: Vec::new(),
        line_symbol_primary: crate::line::clone_opt_string(&q.line.line_symbol_primary),
        line_symbol_secondary: crate::line::clone_opt_string(&q.line.line_symbol_secondary),
        line_symbol_extra: crate::line::clone_opt_string(&q.line.line_symbol_extra),
        line_symbol_primary_color: crate::line::clone_opt_string(
            &q.line.line_symbol_primary_color,
        ),
        line_symbol_secondary_color: crate::line::clone_opt_string(
            &q.line.line_symbol_secondary_color,
        ),
        line_symbol_extra_color: crate::line::clone_opt_string(&q.line.line_symbol_extra_color),
        line_symbol_primary_shape: crate::line::clone_opt_string(
            &q.line.line_symbol_primary_shape,
        ),
        line_symbol_secondary_shape: crate::line::clone_opt_string(
            &q.line.line_symbol_secondary_shape,
        ),
        line_symbol_extra_shape: crate::line::clone_opt_string(&q.line.line_symbol_extra_shape),
        e_status: q.line.e_status,
        e_sort: q.line.e_sort,
        average_distance: q.line.average_distance,
        line_group_cd: crate::line::clone_opt_u32(&q.line_group_cd),
        station_cd: crate::line::clone_opt_u32(&q.station_cd),
        station_g_cd: crate::line::clone_opt_u32(&q.station_g_cd),
    }
}

/// The standard listing order for lines: secondary sort field, then
/// primary identifier, ascending.
pub open spec fn le_line_order(a: LineCtxRow, b: LineCtxRow) -> bool {
    a.line.e_sort < b.line.e_sort || (a.line.e_sort == b.line.e_sort && a.line.line_cd
        <= b.line.line_cd)
}

/// Stable insertion into a sequence sorted by [`le_line_order`].
pub open spec fn insert_line_by_order(s: Seq<LineCtxRow>, x: LineCtxRow) -> Seq<LineCtxRow>
    decreases s.len(),
{
    if s.len() == 0 {
        seq![x]
    } else if le_line_order(s.last(), x) {
        s.push(x)
    } else {
        insert_line_by_order(s.drop_last(), x).push(s.last())
    }
}

/// Stable insertion sort by [`le_line_order`].
pub open spec fn sort_lines_by_order(s: Seq<LineCtxRow>) -> Seq<LineCtxRow>
    decreases s.len(),
{
    if s.len() == 0 {
        Seq::empty()
    } else {
        insert_line_by_order(sort_lines_by_order(s.drop_last()), s.last())
    }
}

/// Where the scanned insertion point lands, [`insert_line_by_order`]
/// splits the sequence there.
proof fn lemma_insert_line_by_order_at(s: Seq<LineCtxRow>, x: LineCtxRow, i: int)
    requires
        0 <= i <= s.len(),
        i == 0 || le_line_order(s[i - 1], x),
        forall|m: int| i <= m < s.len() ==> !le_line_order(#[trigger] s[m], x),
    ensures
        insert_line_by_order(s, x) == s.subrange(0, i).push(x) + s.subrange(i, s.len() as int),
    decreases s.len(),
{
    if s.len() == 0 {
        assert(insert_line_by_order(s, x) =~= s.subrange(0, 0).push(x) + s.subrange(0, 0));
    } else if i == s.len() {
        assert(insert_line_by_order(s, x) =~= s.subrange(0, i).push(x) + s.subrange(
            i,
            s.len() as int,
        ));
    } else {
        let s2 = s.drop_last();
        assert(forall|m: int| i <= m < s2.len() ==> !le_line_order(#[trigger] s2[m], x));
        lemma_insert_line_by_order_at(s2, x, i);
        assert(insert_line_by_order(s, x) =~= s.subrange(0, i).push(x) + s.subrange(
            i,
            s.len() as int,
        ));
    }
}

/// Compare two selected rows by the standard listing order.
fn le_line_order_exec(a: &LineCtxRow, b: &LineCtxRow) -> (r: bool)
    ensures
        r == le_line_order(*a, *b),
{
    a.line.e_sort < b.line.e_sort || (a.line.e_sort == b.line.e_sort && a.line.line_cd
        <= b.line.line_cd)
}

/// Insert a selected row into a collection kept in the standard order.
fn insert_line_sorted(acc: &mut Vec<LineCtxRow>, x: LineCtxRow)
    ensures
        final(acc)@ == insert_line_by_order(old(acc)@, x),
{
    let mut idx: usize = acc.len();
    while idx > 0 && !le_line_order_exec(&acc[idx - 1], &x)
        invariant
            idx <= acc@.len(),
            acc@ == old(acc)@,
            forall|m: int| idx <= m < acc@.len() ==> !le_line_order(#[trigger] acc@[m], x),
        decreases idx,
    {
        idx = idx - 1;
    }
    proof {
        lemma_insert_line_by_order_at(acc@, x, idx as int);
    }
    acc.insert(idx, x);
    assert(final(acc)@ =~= old(acc)@.subrange(0, idx as int).push(x) + old(acc)@.subrange(
        idx as int,
        old(acc)@.len() as int,
    ));
}

/// Sort selected rows by the standard listing order.
fn sort_line_rows(v: &Vec<LineCtxRow>) -> (r: Vec<LineCtxRow>)
    ensures
        r@ == sort_lines_by_order(v@),
{
    let mut out: Vec<LineCtxRow> = Vec::new();
    let mut i: usize = 0;
    while i < v.len()
        invariant
            0 <= i <= v.len(),
            out@ == sort_lines_by_order(v@.take(i as int)),
        decreases v.len() - i,
    {
        insert_line_sorted(&mut out, v[i].clone());
        proof {
            assert(v@.take(i + 1).drop_last() =~= v@.take(i as int));
            assert(v@.take(i + 1).last() == v@[i as int]);
        }
        i = i + 1;
    }
    proof {
        assert(v@.take(v@.len() as int) =~= v@);
    }
    out
}

/// Truncate a selection to the caller's limit (one row when omitted).
pub open spec fn take_line_limit(s: Seq<LineCtxRow>, limit: Option<u32>) -> Seq<LineCtxRow> {
    let n = crate::station_repository::limit_val(limit);
    if s.len() <= n {
        s
    } else {
        s.subrange(0, n)
    }
}

/// Truncate a selection to the caller's limit.
fn take_line_rows(v: &Vec<LineCtxRow>, limit: Option<u32>) -> (r: Vec<LineCtxRow>)
    ensures
        r@ == take_line_limit(v@, limit),
{
    let n_u32: u32 = match &limit {
        Some(l) => *l,
        None => 1,
    };
    let n: usize = if (n_u32 as usize) <= v.len() {
        n_u32 as usize
    } else {
        v.len()
    };
    let mut out: Vec<LineCtxRow> = Vec::new();
    let mut i: usize = 0;
    while i < n
        invariant
            0 <= i <= n <= v@.len(),
            out@ == v@.subrange(0, i as int),
        decreases n - i,
    {
        out.push(v[i].clone());
        assert(out@ =~= v@.subrange(0, i + 1));
        i = i + 1;
    }
    proof {
        assert(out@ =~= take_line_limit(v@, limit));
    }
    out
}

/// Build the entity list for a selection, in order.
fn lines_from_ctx_rows(v: &Vec<LineCtxRow>, aliases: &Vec<LineAliasRow>) -> (r: Vec<Line>)
    ensures
        r@.len() == v@.len(),
        forall|i: int| 0 <= i < v@.len() ==> #[trigger] line_matches_ctx(r@[i], v@[i], aliases@),
{
    let mut out: Vec<Line> = Vec::new();
    let mut i: usize = 0;
    while i < v.len()
        invariant
            0 <= i <= v.len(),
            out@.len() == i,
            forall|j: int| 0 <= j < i ==> #[trigger] line_matches_ctx(out@[j], v@[j], aliases@),
        decreases v.len() - i,
    {
        out.push(line_from_ctx(&v[i], aliases));
        i = i + 1;
    }
    out
}

/// The first active line row with the given line id, if any.
pub open spec fn find_line_row(lines: Seq<LineRow>, line_cd: u32) -> Option<LineRow>
    decreases lines.len(),
{
    if lines.len() == 0 {
        Option::None
    } else if lines[0].e_status == 0 && lines[0].line_cd == line_cd {
        Option::Some(lines[0])
    } else {
        find_line_row(lines.drop_first(), line_cd)
    }
}

/// Scan for the first active line row with the given line id.
pub fn find_line_row_exec(lines: &Vec<LineRow>, line_cd: u32) -> (r: Option<LineRow>)
    ensures
        r == find_line_row(lines@, line_cd),
{
    let mut i: usize = 0;
    proof {
        assert(lines@.skip(0) =~= lines@);
    }
    while i < lines.len()
        invariant
            0 <= i <= lines.len(),
            find_line_row(lines@, line_cd) == find_line_row(lines@.skip(i as int), line_cd),
        decreases lines.len() - i,
    {
        if lines[i].e_status == 0 && lines[i].line_cd == line_cd {
            assert(lines@.skip(i as int)[0] == lines@[i as int]);
            return Some(lines[i].clone());
        }
        proof {
            assert(lines@.skip(i as int).drop_first() =~= lines@.skip(i + 1));
        }
        i = i + 1;
    }
    assert(lines@.skip(i as int).len() == 0);
    None
}

/// The first non-skipped service-pattern link of a station, if any.
pub open spec fn first_stop_link(links: Seq<StationStopLink>, station_cd: u32) -> Option<
    StationStopLink,
>
    decreases links.len(),
{
    if links.len() == 0 {
        Option::None
    } else if links[0].station_cd == station_cd && links[0].pass != 1 {
        Option::Some(links[0])
    } else {
        first_stop_link(links.drop_first(), station_cd)
    }
}

/// Scan for the first non-skipped service-pattern link of a station.
fn first_stop_link_exec(links: &Vec<StationStopLink>, station_cd: u32) -> (r: Option<
    StationStopLink,
>)
    ensures
        r == first_stop_link(links@, station_cd),
{
    let mut i: usize = 0;
    proof {
        assert(links@.skip(0) =~= links@);
    }
    while i < links.len()
        invariant
            0 <= i <= links.len(),
            first_stop_link(links@, station_cd) == first_stop_link(
                links@.skip(i as int),
                station_cd,
            ),
        decreases links.len() - i,
    {
        if links[i].station_cd == station_cd && links[i].pass != 1 {
            assert(links@.skip(i as int)[0] == links@[i as int]);
            return Some(links[i]);
        }
        proof {
            assert(links@.skip(i as int).drop_first() =~= links@.skip(i + 1));
        }
        i = i + 1;
    }
    assert(links@.skip(i as int).len() == 0);
    None
}

/// Scan a plain id list for a value.
fn contains_u32(ids: &Vec<u32>, x: u32) -> (r: bool)
    ensures
        r == ids@.contains(x),
{
    let mut i: usize = 0;
    while i < ids.len()
        invariant
            0 <= i <= ids.len(),
            forall|j: int| 0 <= j < i ==> ids@[j] != x,
        decreases ids.len() - i,
    {
        if ids[i] == x {
            return true;
        }
        i = i + 1;
    }
    false
}

/// The active rows among the requested ids, without context.
pub open spec fn lines_by_ids(lines: Seq<LineRow>, ids: Seq<u32>) -> Seq<LineCtxRow>
    decreases lines.len(),
{
    if lines.len() == 0 {
        Seq::empty()
    } else {
        let rest = lines_by_ids(lines.drop_last(), ids);
        if lines.last().e_status == 0 && ids.contains(lines.last().line_cd) {
            rest.push(plain_ctx(lines.last()))
        } else {
            rest
        }
    }
}

/// With no requested ids, no row is selected.
proof fn lemma_lines_by_ids_empty(lines: Seq<LineRow>, ids: Seq<u32>)
    requires
        ids.len() == 0,
    ensures
        lines_by_ids(lines, ids).len() == 0,
    decreases lines.len(),
{
    if lines.len() > 0 {
        lemma_lines_by_ids_empty(lines.drop_last(), ids);
    }
}

/// An id selection splits at its first table row: the head row's
/// contribution, then the selection over the rest.
pub proof fn lemma_lines_by_ids_first(lines: Seq<LineRow>, ids: Seq<u32>)
    requires
        lines.len() > 0,
    ensures
        lines_by_ids(lines, ids) == (if lines[0].e_status == 0 && ids.contains(lines[0].line_cd) {
            seq![plain_ctx(lines[0])]
        } else {
            Seq::empty()
        }) + lines_by_ids(lines.drop_first(), ids),
    decreases lines.len(),
{
    let head: Seq<LineCtxRow> = if lines[0].e_status == 0 && ids.contains(lines[0].line_cd) {
        seq![plain_ctx(lines[0])]
    } else {
        Seq::empty()
    };
    if lines.len() == 1 {
        assert(lines.last() == lines[0]);
        assert(lines.drop_last().len() == 0);
        assert(lines.drop_first().len() == 0);
        assert(lines_by_ids(lines.drop_last(), ids).len() == 0);
        assert(lines_by_ids(lines.drop_first(), ids).len() == 0);
        assert(lines_by_ids(lines, ids) =~= head + lines_by_ids(lines.drop_first(), ids));
    } else {
        let l2 = lines.drop_last();
        lemma_lines_by_ids_first(l2, ids);
        assert(l2[0] == lines[0]);
        assert(lines.drop_first().drop_last() =~= l2.drop_first());
        assert(lines_by_ids(lines.drop_first().drop_last(), ids) == lines_by_ids(
            l2.drop_first(),
            ids,
        ));
        assert(lines.drop_first().last() == lines.last());
        if lines.last().e_status == 0 && ids.contains(lines.last().line_cd) {
            assert(lines_by_ids(lines, ids) == lines_by_ids(l2, ids).push(
                plain_ctx(lines.last()),
            ));
            assert(lines_by_ids(lines.drop_first(), ids) == lines_by_ids(
                l2.drop_first(),
                ids,
            ).push(plain_ctx(lines.last())));
            assert(lines_by_ids(lines, ids) =~= head + lines_by_ids(lines.drop_first(), ids));
        } else {
            assert(lines_by_ids(lines, ids) == lines_by_ids(l2, ids));
            assert(lines_by_ids(lines.drop_first(), ids) == lines_by_ids(l2.drop_first(), ids));
            assert(lines_by_ids(lines, ids) =~= head + lines_by_ids(lines.drop_first(), ids));
        }
    }
}

/// The query matches some localized name field of the row,
/// case-insensitively and by substring containment: `'a'` and `'A'` are
/// one letter; folding is ASCII-only, other scripts match exactly.
pub open spec fn line_name_matches(row: LineRow, q: Seq<char>) -> bool {
    ||| row.line_name is Some && contains_ci(row.line_name->0@, q)
    ||| row.line_name_r is Some && contains_ci(row.line_name_r->0@, q)
    ||| row.line_name_k is Some && contains_ci(row.line_name_k->0@, q)
    ||| row.line_name_zh is Some && contains_ci(row.line_name_zh->0@, q)
    ||| row.line_name_ko is Some && contains_ci(row.line_name_ko->0@, q)
}

/// Test the query against every localized name field of the row.
fn line_row_name_matches(row: &LineRow, q: &str) -> (r: bool)
    ensures
        r == line_name_matches(*row, q@),
{
    if opt_contains_ci(&row.line_name, q) {
        return true;
    }
    if opt_contains_ci(&row.line_name_r, q) {
        return true;
    }
    if opt_contains_ci(&row.line_name_k, q) {
        return true;
    }
    if opt_contains_ci(&row.line_name_zh, q) {
        return true;
    }
    opt_contains_ci(&row.line_name_ko, q)
}

/// The active rows whose localized names match the query, without
/// context.
pub open spec fn lines_by_name(lines: Seq<LineRow>, q: Seq<char>) -> Seq<LineCtxRow>
    decreases lines.len(),
{
    if lines.len() == 0 {
        Seq::empty()
    } else {
        let rest = lines_by_name(lines.drop_last(), q);
        if lines.last().e_status == 0 && line_name_matches(lines.last(), q) {
            rest.push(plain_ctx(lines.last()))
        } else {
            rest
        }
    }
}

/// One row per active station of the group that has a non-skipped
/// service-pattern link and an active home line: that line, annotated
/// with the station's identity and the link's line group.
pub open spec fn lines_by_station_group(
    stations: Seq<StationRow>,
    lines: Seq<LineRow>,
    links: Seq<StationStopLink>,
    station_g_cd: u32,
) -> Seq<LineCtxRow>
    decreases stations.len(),
{
    if stations.len() == 0 {
        Seq::empty()
    } else {
        let rest = lines_by_station_group(stations.drop_last(), lines, links, station_g_cd);
        let s = stations.last();
        if s.e_status == 0 && s.station_g_cd == station_g_cd {
            match first_stop_link(links, s.station_cd) {
                Option::Some(k) => match find_line_row(lines, s.line_cd) {
                    Option::Some(l) => rest.push(
                        LineCtxRow {
                            line: l,
                            station_cd: Option::Some(s.station_cd),
                            station_g_cd: Option::Some(s.station_g_cd),
                            line_group_cd: Option::Some(k.line_group_cd),
                        },
                    ),
                    Option::None => rest,
                },
                Option::None => rest,
            }
        } else {
            rest
        }
    }
}

/// The batched variant: one row per active station of any requested
/// group with an active home line; the link is optional here, so a
/// station without service patterns still contributes its line, with no
/// line group attached.
pub open spec fn lines_by_station_group_batch(
    stations: Seq<StationRow>,
    lines: Seq<LineRow>,
    links: Seq<StationStopLink>,
    station_g_cds: Seq<u32>,
) -> Seq<LineCtxRow>
    decreases stations.len(),
{
    if stations.len() == 0 {
        Seq::empty()
    } else {
        let rest = lines_by_station_group_batch(stations.drop_last(), lines, links, station_g_cds);
        let s = stations.last();
        if s.e_status == 0 && station_g_cds.contains(s.station_g_cd) {
            match find_line_row(lines, s.line_cd) {
                Option::Some(l) => rest.push(
                    LineCtxRow {
                        line: l,
                        station_cd: Option::Some(s.station_cd),
                        station_g_cd: Option::Some(s.station_g_cd),
                        line_group_cd: match first_stop_link(links, s.station_cd) {
                            Option::Some(k) => Option::Some(k.line_group_cd),
                            Option::None => Option::None,
                        },
                    },
                ),
                Option::None => rest,
            }
        } else {
            rest
        }
    }
}

/// With no requested groups, no row is selected.
proof fn lemma_lines_by_station_group_batch_empty(
    stations: Seq<StationRow>,
    lines: Seq<LineRow>,
    links: Seq<StationStopLink>,
    station_g_cds: Seq<u32>,
)
    requires
        station_g_cds.len() == 0,
    ensures
        lines_by_station_group_batch(stations, lines, links, station_g_cds).len() == 0,
    decreases stations.len(),
{
    if stations.len() > 0 {
        lemma_lines_by_station_group_batch_empty(
            stations.drop_last(),
            lines,
            links,
            station_g_cds,
        );
    }
}

/// The selection already holds a row of this line.
pub open spec fn ctx_has_line(s: Seq<LineCtxRow>, line_cd: u32) -> bool {
    exists|j: int| 0 <= j < s.len() && #[trigger] s[j].line.line_cd == line_cd
}

/// Scan a prefix of a selection for a row of the given line.
fn ctx_line_seen(v: &Vec<LineCtxRow>, end: usize, line_cd: u32) -> (r: bool)
    requires
        end <= v@.len(),
    ensures
        r == ctx_has_line(v@.take(end as int), line_cd),
{
    let mut j: usize = 0;
    while j < end
        invariant
            0 <= j <= end <= v@.len(),
            forall|k: int| 0 <= k < j ==> #[trigger] v@[k].line.line_cd != line_cd,
        decreases end - j,
    {
        if v[j].line.line_cd == line_cd {
            assert(v@.take(end as int)[j as int].line.line_cd == line_cd);
            return true;
        }
        j = j + 1;
    }
    assert(forall|k: int|
        0 <= k < end ==> #[trigger] v@.take(end as int)[k].line.line_cd != line_cd);
    false
}

/// One row per distinct line reachable from a line group: through each
/// non-skipped link of the group, the active station behind it and that
/// station's active home line; the first link wins for each line.
pub open spec fn lines_by_line_group(
    links: Seq<StationStopLink>,
    stations: Seq<StationRow>,
    lines: Seq<LineRow>,
    line_group_cd: u32,
) -> Seq<LineCtxRow>
    decreases links.len(),
{
    if links.len() == 0 {
        Seq::empty()
    } else {
        let rest = lines_by_line_group(links.drop_last(), stations, lines, line_group_cd);
        let k = links.last();
        if k.line_group_cd == line_group_cd && k.pass != 1 {
            match find_station_row(stations, k.station_cd) {
                Option::Some(s) => match find_line_row(lines, s.line_cd) {
                    Option::Some(l) => {
                        if ctx_has_line(rest, l.line_cd) {
                            rest
                        } else {
                            rest.push(
                                LineCtxRow {
                                    line: l,
                                    station_cd: Option::Some(s.station_cd),
                                    station_g_cd: Option::Some(s.station_g_cd),
                                    line_group_cd: Option::Some(line_group_cd),
                                },
                            )
                        }
                    },
                    Option::None => rest,
                },
                Option::None => rest,
            }
        } else {
            rest
        }
    }
}

/// The batched variant: the per-group selections of every requested line
/// group, concatenated in request order (a line reachable from several
/// requested groups appears once per group).
pub open spec fn lines_by_line_group_vec(
    links: Seq<StationStopLink>,
    stations: Seq<StationRow>,
    lines: Seq<LineRow>,
    line_group_cds: Seq<u32>,
) -> Seq<LineCtxRow>
    decreases line_group_cds.len(),
{
    if line_group_cds.len() == 0 {
        Seq::empty()
    } else {
        lines_by_line_group_vec(links, stations, lines, line_group_cds.drop_last())
            + lines_by_line_group(links, stations, lines, line_group_cds.last())
    }
}

/// Keep one row per line across the whole batched selection: the first
/// group's row wins.
pub open spec fn dedup_lines_by_cd(s: Seq<LineCtxRow>) -> Seq<LineCtxRow>
    decreases s.len(),
{
    if s.len() == 0 {
        Seq::empty()
    } else {
        let d = dedup_lines_by_cd(s.drop_last());
        if ctx_has_line(s.drop_last(), s.last().line.line_cd) {
            d
        } else {
            d.push(s.last())
        }
    }
}

/// The home line of a station looked up by station id: the station's
/// active row, its first non-skipped link, and its active home line,
/// annotated with the join context.
pub open spec fn station_home_ctx(
    stations: Seq<StationRow>,
    lines: Seq<LineRow>,
    links: Seq<StationStopLink>,
    station_id: u32,
) -> Option<LineCtxRow> {
    match find_station_row(stations, station_id) {
        Option::None => Option::None,
        Option::Some(s) => match first_stop_link(links, s.station_cd) {
            Option::None => Option::None,
            Option::Some(k) => match find_line_row(lines, s.line_cd) {
                Option::None => Option::None,
                Option::Some(l) => Option::Some(
                    LineCtxRow {
                        line: l,
                        station_cd: Option::Some(s.station_cd),
                        station_g_cd: Option::Some(s.station_g_cd),
                        line_group_cd: Option::Some(k.line_group_cd),
                    },
                ),
            },
        },
    }
}

/// Collect the active rows among the requested ids.
fn collect_by_ids(lines: &Vec<LineRow>, ids: &Vec<u32>) -> (r: Vec<LineCtxRow>)
    ensures
        r@ == lines_by_ids(lines@, ids@),
{
    let mut acc: Vec<LineCtxRow> = Vec::new();
    let mut i: usize = 0;
    while i < lines.len()
        invariant
            0 <= i <= lines.len(),
            acc@ == lines_by_ids(lines@.take(i as int), ids@),
        decreases lines.len() - i,
    {
        proof {
            assert(lines@.take(i + 1).drop_last() =~= lines@.take(i as int));
            assert(lines@.take(i + 1).last() == lines@[i as int]);
        }
        if lines[i].e_status == 0 && contains_u32(ids, lines[i].line_cd) {
            acc.push(
                LineCtxRow {
                    line: lines[i].clone(),
                    station_cd: None,
                    station_g_cd: None,
                    line_group_cd: None,
                },
            );
        }
        i = i + 1;
    }
    proof {
        assert(lines@.take(lines@.len() as int) =~= lines@);
    }
    acc
}

/// Collect the active rows whose names match the query.
fn collect_by_name(lines: &Vec<LineRow>, q: &str) -> (r: Vec<LineCtxRow>)
    ensures
        r@ == lines_by_name(lines@, q@),
{
    let mut acc: Vec<LineCtxRow> = Vec::new();
    let mut i: usize = 0;
    while i < lines.len()
        invariant
            0 <= i <= lines.len(),
            acc@ == lines_by_name(lines@.take(i as int), q@),
        decreases lines.len() - i,
    {
        proof {
            assert(lines@.take(i + 1).drop_last() =~= lines@.take(i as int));
            assert(lines@.take(i + 1).last() == lines@[i as int]);
        }
        if lines[i].e_status == 0 && line_row_name_matches(&lines[i], q) {
            acc.push(
                LineCtxRow {
                    line: lines[i].clone(),
                    station_cd: None,
                    station_g_cd: None,
                    line_group_cd: None,
                },
            );
        }
        i = i + 1;
    }
    proof {
        assert(lines@.take(lines@.len() as int) =~= lines@);
    }
    acc
}

/// Collect the station-group join: one row per qualifying station.
fn collect_by_station_group(
    stations: &Vec<StationRow>,
    lines: &Vec<LineRow>,
    links: &Vec<StationStopLink>,
    station_g_cd: u32,
) -> (r: Vec<LineCtxRow>)
    ensures
        r@ == lines_by_station_group(stations@, lines@, links@, station_g_cd),
{
    let mut acc: Vec<LineCtxRow> = Vec::new();
    let mut i: usize = 0;
    while i < stations.len()
        invariant
            0 <= i <= stations.len(),
            acc@ == lines_by_station_group(stations@.take(i as int), lines@, links@, station_g_cd),
        decreases stations.len() - i,
    {
        proof {
            assert(stations@.take(i + 1).drop_last() =~= stations@.take(i as int));
            assert(stations@.take(i + 1).last() == stations@[i as int]);
        }
        if stations[i].e_status == 0 && stations[i].station_g_cd == station_g_cd {
            match first_stop_link_exec(links, stations[i].station_cd) {
                Some(k) => match find_line_row_exec(lines, stations[i].line_cd) {
                    Some(l) => {
                        acc.push(
                            LineCtxRow {
                                line: l,
                                station_cd: Some(stations[i].station_cd),
                                station_g_cd: Some(stations[i].station_g_cd),
                                line_group_cd: Some(k.line_group_cd),
                            },
                        );
                    },
                    None => {},
                },
                None => {},
            }
        }
        i = i + 1;
    }
    proof {
        assert(stations@.take(stations@.len() as int) =~= stations@);
    }
    acc
}

/// Collect the batched station-group join.
fn collect_by_station_group_batch(
    stations: &Vec<StationRow>,
    lines: &Vec<LineRow>,
    links: &Vec<StationStopLink>,
    station_g_cds: &Vec<u32>,
) -> (r: Vec<LineCtxRow>)
    ensures
        r@ == lines_by_station_group_batch(stations@, lines@, links@, station_g_cds@),
{
    let mut acc: Vec<LineCtxRow> = Vec::new();
    let mut i: usize = 0;
    while i < stations.len()
        invariant
            0 <= i <= stations.len(),
            acc@ == lines_by_station_group_batch(
                stations@.take(i as int),
                lines@,
                links@,
                station_g_cds@,
            ),
        decreases stations.len() - i,
    {
        proof {
            assert(stations@.take(i + 1).drop_last() =~= stations@.take(i as int));
            assert(stations@.take(i + 1).last() == stations@[i as int]);
        }
        if stations[i].e_status == 0 && contains_u32(station_g_cds, stations[i].station_g_cd) {
            match find_line_row_exec(lines, stations[i].line_cd) {
                Some(l) => {
                    let lgcd: Option<u32> = match first_stop_link_exec(
                        links,
                        stations[i].station_cd,
                    ) {
                        Some(k) => Some(k.line_group_cd),
                        None => None,
                    };
                    acc.push(
                        LineCtxRow {
                            line: l,
                            station_cd: Some(stations[i].station_cd),
                            station_g_cd: Some(stations[i].station_g_cd),
                            line_group_cd: lgcd,
                        },
                    );
                },
                None => {},
            }
        }
        i = i + 1;
    }
    proof {
        assert(stations@.take(stations@.len() as int) =~= stations@);
    }
    acc
}

/// Collect the line-group join: one row per distinct reachable line.
fn collect_by_line_group(
    links: &Vec<StationStopLink>,
    stations: &Vec<StationRow>,
    lines: &Vec<LineRow>,
    line_group_cd: u32,
) -> (r: Vec<LineCtxRow>)
    ensures
        r@ == lines_by_line_group(links@, stations@, lines@, line_group_cd),
{
    let mut acc: Vec<LineCtxRow> = Vec::new();
    let mut i: usize = 0;
    while i < links.len()
        invariant
            0 <= i <= links.len(),
            acc@ == lines_by_line_group(links@.take(i as int), stations@, lines@, line_group_cd),
        decreases links.len() - i,
    {
        proof {
            assert(links@.take(i + 1).drop_last() =~= links@.take(i as int));
            assert(links@.take(i + 1).last() == links@[i as int]);
        }
        if links[i].line_group_cd == line_group_cd && links[i].pass != 1 {
            match find_station_row_exec(stations, links[i].station_cd) {
                Some(s) => match find_line_row_exec(lines, s.line_cd) {
                    Some(l) => {
                        let seen = ctx_line_seen(&acc, acc.len(), l.line_cd);
                        proof {
                            assert(acc@.take(acc@.len() as int) =~= acc@);
                        }
                        if !seen {
                            acc.push(
                                LineCtxRow {
                                    line: l,
                                    station_cd: Some(s.station_cd),
                                    station_g_cd: Some(s.station_g_cd),
                                    line_group_cd: Some(line_group_cd),
                                },
                            );
                        }
                    },
                    None => {},
                },
                None => {},
            }
        }
        i = i + 1;
    }
    proof {
        assert(links@.take(links@.len() as int) =~= links@);
    }
    acc
}

/// Collect the batched line-group join, in request order.
fn collect_by_line_group_vec(
    links: &Vec<StationStopLink>,
    stations: &Vec<StationRow>,
    lines: &Vec<LineRow>,
    line_group_cds: &Vec<u32>,
) -> (r: Vec<LineCtxRow>)
    ensures
        r@ == lines_by_line_group_vec(links@, stations@, lines@, line_group_cds@),
{
    let mut acc: Vec<LineCtxRow> = Vec::new();
    let mut g: usize = 0;
    while g < line_group_cds.len()
        invariant
            0 <= g <= line_group_cds.len(),
            acc@ == lines_by_line_group_vec(
                links@,
                stations@,
                lines@,
                line_group_cds@.take(g as int),
            ),
        decreases line_group_cds.len() - g,
    {
        proof {
            assert(line_group_cds@.take(g + 1).drop_last() =~= line_group_cds@.take(g as int));
            assert(line_group_cds@.take(g + 1).last() == line_group_cds@[g as int]);
        }
        let mut part = collect_by_line_group(links, stations, lines, line_group_cds[g]);
        acc.append(&mut part);
        g = g + 1;
    }
    proof {
        assert(line_group_cds@.take(line_group_cds@.len() as int) =~= line_group_cds@);
    }
    acc
}

/// Drop all but the first row of each line across a batched selection.
fn dedup_by_line_cd(v: &Vec<LineCtxRow>) -> (r: Vec<LineCtxRow>)
    ensures
        r@ == dedup_lines_by_cd(v@),
{
    let mut out: Vec<LineCtxRow> = Vec::new();
    let mut i: usize = 0;
    while i < v.len()
        invariant
            0 <= i <= v.len(),
            out@ == dedup_lines_by_cd(v@.take(i as int)),
        decreases v.len() - i,
    {
        proof {
            assert(v@.take(i + 1).drop_last() =~= v@.take(i as int));
            assert(v@.take(i + 1).last() == v@[i as int]);
        }
        if !ctx_line_seen(v, i, v[i].line.line_cd) {
            out.push(v[i].clone());
        }
        i = i + 1;
    }
    proof {
        assert(v@.take(v@.len() as int) =~= v@);
    }
    out
}

/// The in-memory line query engine.  Each function is the semantics of
/// one provider lookup over plain row tables.
pub struct InternalLineRepository {}

impl InternalLineRepository {
    /// Look a line up by id, active rows only, without context.
    pub fn find_by_id(id: u32, lines: &Vec<LineRow>, aliases: &Vec<LineAliasRow>) -> (r: Option<
        Line,
    >)
        ensures
            match find_line_row(lines@, id) {
                Option::Some(row) => r is Some && line_matches_ctx(r->0, plain_ctx(row), aliases@),
                Option::None => r is None,
            },
    {
        match find_line_row_exec(lines, id) {
            Some(row) => Some(
                line_from_ctx(
                    &LineCtxRow {
                        line: row,
                        station_cd: None,
                        station_g_cd: None,
                        line_group_cd: None,
                    },
                    aliases,
                ),
            ),
            None => None,
        }
    }

    /// The home line of a station looked up by station id, with join
    /// context and alias overrides.
    pub fn find_by_station_id(
        station_id: u32,
        stations: &Vec<StationRow>,
        lines: &Vec<LineRow>,
        links: &Vec<StationStopLink>,
        aliases: &Vec<LineAliasRow>,
    ) -> (r: Option<Line>)
        ensures
            match station_home_ctx(stations@, lines@, links@, station_id) {
                Option::Some(q) => r is Some && line_matches_ctx(r->0, q, aliases@),
                Option::None => r is None,
            },
    {
        match find_station_row_exec(stations, station_id) {
            Some(s) => match first_stop_link_exec(links, s.station_cd) {
                Some(k) => match find_line_row_exec(lines, s.line_cd) {
                    Some(l) => Some(
                        line_from_ctx(
                            &LineCtxRow {
                                line: l,
                                station_cd: Some(s.station_cd),
                                station_g_cd: Some(s.station_g_cd),
                                line_group_cd: Some(k.line_group_cd),
                            },
                            aliases,
                        ),
                    ),
                    None => None,
                },
                None => None,
            },
            None => None,
        }
    }

    /// The active lines among the requested ids, in the standard order.
    /// An empty id batch short-circuits to an empty result.
    pub fn get_by_ids(ids: &Vec<u32>, lines: &Vec<LineRow>, aliases: &Vec<LineAliasRow>) -> (r:
        Vec<Line>)
        ensures
            ({
                let sel = sort_lines_by_order(lines_by_ids(lines@, ids@));
                r@.len() == sel.len() && forall|i: int|
                    0 <= i < sel.len() ==> #[trigger] line_matches_ctx(r@[i], sel[i], aliases@)
            }),
    {
        if ids.len() == 0 {
            proof {
                lemma_lines_by_ids_empty(lines@, ids@);
            }
            return Vec::new();
        }
        let acc = collect_by_ids(lines, ids);
        let sorted = sort_line_rows(&acc);
        lines_from_ctx_rows(&sorted, aliases)
    }

    /// The active lines among the requested ids, in table order, for the
    /// enrichment engine: the batch path resolves each station's home
    /// line by first match over this collection, exactly as the single
    /// lookup scans the table.  (The listing endpoint `get_by_ids`
    /// returns the same rows in the standard order.)
    pub fn get_by_ids_in_order(ids: &Vec<u32>, lines: &Vec<LineRow>, aliases: &Vec<LineAliasRow>)
        -> (r: Vec<Line>)
        ensures
            ({
                let sel = lines_by_ids(lines@, ids@);
                r@.len() == sel.len() && forall|i: int|
                    0 <= i < sel.len() ==> #[trigger] line_matches_ctx(r@[i], sel[i], aliases@)
            }),
    {
        if ids.len() == 0 {
            proof {
                lemma_lines_by_ids_empty(lines@, ids@);
            }
            return Vec::new();
        }
        let acc = collect_by_ids(lines, ids);
        lines_from_ctx_rows(&acc, aliases)
    }

    /// The lines serving a station group, one row per qualifying station,
    /// in the standard order.
    pub fn get_by_station_group_id(
        station_group_id: u32,
        stations: &Vec<StationRow>,
        lines: &Vec<LineRow>,
        links: &Vec<StationStopLink>,
        aliases: &Vec<LineAliasRow>,
    ) -> (r: Vec<Line>)
        ensures
            ({
                let sel = sort_lines_by_order(
                    lines_by_station_group(stations@, lines@, links@, station_group_id),
                );
                r@.len() == sel.len() && forall|i: int|
                    0 <= i < sel.len() ==> #[trigger] line_matches_ctx(r@[i], sel[i], aliases@)
            }),
    {
        let acc = collect_by_station_group(stations, lines, links, station_group_id);
        let sorted = sort_line_rows(&acc);
        lines_from_ctx_rows(&sorted, aliases)
    }

    /// The batched station-group lookup, one flat collection annotated
    /// per-row with its originating station.  An empty batch
    /// short-circuits to an empty result.
    pub fn get_by_station_group_id_vec(
        station_group_id_vec: &Vec<u32>,
        stations: &Vec<StationRow>,
        lines: &Vec<LineRow>,
        links: &Vec<StationStopLink>,
        aliases: &Vec<LineAliasRow>,
    ) -> (r: Vec<Line>)
        ensures
            ({
                let sel = sort_lines_by_order(
                    lines_by_station_group_batch(stations@, lines@, links@, station_group_id_vec@),
                );
                r@.len() == sel.len() && forall|i: int|
                    0 <= i < sel.len() ==> #[trigger] line_matches_ctx(r@[i], sel[i], aliases@)
            }),
    {
        if station_group_id_vec.len() == 0 {
            proof {
                lemma_lines_by_station_group_batch_empty(
                    stations@,
                    lines@,
                    links@,
                    station_group_id_vec@,
                );
            }
            return Vec::new();
        }
        let acc = collect_by_station_group_batch(stations, lines, links, station_group_id_vec);
        let sorted = sort_line_rows(&acc);
        lines_from_ctx_rows(&sorted, aliases)
    }

    /// The distinct lines reachable from a line group, in the standard
    /// order.
    pub fn get_by_line_group_id(
        line_group_id: u32,
        stations: &Vec<StationRow>,
        lines: &Vec<LineRow>,
        links: &Vec<StationStopLink>,
        aliases: &Vec<LineAliasRow>,
    ) -> (r: Vec<Line>)
        ensures
            ({
                let sel = sort_lines_by_order(
                    lines_by_line_group(links@, stations@, lines@, line_group_id),
                );
                r@.len() == sel.len() && forall|i: int|
                    0 <= i < sel.len() ==> #[trigger] line_matches_ctx(r@[i], sel[i], aliases@)
            }),
    {
        let acc = collect_by_line_group(links, stations, lines, line_group_id);
        let sorted = sort_line_rows(&acc);
        lines_from_ctx_rows(&sorted, aliases)
    }

    /// The batched line-group lookup: one row per (requested group,
    /// reachable line) pair, in the standard order.
    pub fn get_by_line_group_id_vec(
        line_group_id_vec: &Vec<u32>,
        stations: &Vec<StationRow>,
        lines: &Vec<LineRow>,
        links: &Vec<StationStopLink>,
        aliases: &Vec<LineAliasRow>,
    ) -> (r: Vec<Line>)
        ensures
            ({
                let sel = sort_lines_by_order(
                    lines_by_line_group_vec(links@, stations@, lines@, line_group_id_vec@),
                );
                r@.len() == sel.len() && forall|i: int|
                    0 <= i < sel.len() ==> #[trigger] line_matches_ctx(r@[i], sel[i], aliases@)
            }),
    {
        let acc = collect_by_line_group_vec(links, stations, lines, line_group_id_vec);
        let sorted = sort_line_rows(&acc);
        lines_from_ctx_rows(&sorted, aliases)
    }

    /// The batched line-group lookup for route listings: one row per
    /// distinct line across all requested groups, in the standard order.
    pub fn get_by_line_group_id_vec_for_routes(
        line_group_id_vec: &Vec<u32>,
        stations: &Vec<StationRow>,
        lines: &Vec<LineRow>,
        links: &Vec<StationStopLink>,
        aliases: &Vec<LineAliasRow>,
    ) -> (r: Vec<Line>)
        ensures
            ({
                let sel = sort_lines_by_order(
                    dedup_lines_by_cd(
                        lines_by_line_group_vec(links@, stations@, lines@, line_group_id_vec@),
                    ),
                );
                r@.len() == sel.len() && forall|i: int|
                    0 <= i < sel.len() ==> #[trigger] line_matches_ctx(r@[i], sel[i], aliases@)
            }),
    {
        let acc = collect_by_line_group_vec(links, stations, lines, line_group_id_vec);
        let deduped = dedup_by_line_cd(&acc);
        let sorted = sort_line_rows(&deduped);
        lines_from_ctx_rows(&sorted, aliases)
    }

    /// Free-text name search over every localized name field (ASCII
    /// case folding; other scripts match exactly), the standard order,
    /// truncated to the limit (one row when omitted).
    pub fn get_by_name(
        line_name: &str,
        limit: Option<u32>,
        lines: &Vec<LineRow>,
        aliases: &Vec<LineAliasRow>,
    ) -> (r: Vec<Line>)
        ensures
            ({
                let sel = take_line_limit(
                    sort_lines_by_order(lines_by_name(lines@, line_name@)),
                    limit,
                );
                r@.len() == sel.len() && forall|i: int|
                    0 <= i < sel.len() ==> #[trigger] line_matches_ctx(r@[i], sel[i], aliases@)
            }),
    {
        let acc = collect_by_name(lines, line_name);
        let sorted = sort_line_rows(&acc);
        let limited = take_line_rows(&sorted, limit);
        lines_from_ctx_rows(&limited, aliases)
    }
}

/// An in-memory line provider over plain row tables: the deterministic
/// implementation of the line repository contract.
pub struct MemoryLineRepository {
    pub lines: Vec<LineRow>,
    pub stations: Vec<StationRow>,
    pub stop_links: Vec<StationStopLink>,
    pub aliases: Vec<LineAliasRow>,
}

impl MemoryLineRepository {
    /// Build a provider over the given tables.
    pub fn new(
        lines: Vec<LineRow>,
        stations: Vec<StationRow>,
        stop_links: Vec<StationStopLink>,
        aliases: Vec<LineAliasRow>,
    ) -> (r: Self)
        ensures
            r == (MemoryLineRepository { lines, stations, stop_links, aliases }),
    {
        MemoryLineRepository { lines, stations, stop_links, aliases }
    }

    /// Look a line up by id, active rows only, without context.
    pub fn find_by_id(&self, id: u32) -> (r: Option<Line>)
        ensures
            match find_line_row(self.lines@, id) {
                Option::Some(row) => r is Some && line_matches_ctx(
                    r->0,
                    plain_ctx(row),
                    self.aliases@,
                ),
                Option::None => r is None,
            },
    {
        InternalLineRepository::find_by_id(id, &self.lines, &self.aliases)
    }

    /// The home line of a station looked up by station id.
    pub fn find_by_station_id(&self, station_id: u32) -> (r: Option<Line>)
        ensures
            match station_home_ctx(self.stations@, self.lines@, self.stop_links@, station_id) {
                Option::Some(q) => r is Some && line_matches_ctx(r->0, q, self.aliases@),
                Option::None => r is None,
            },
    {
        InternalLineRepository::find_by_station_id(
            station_id,
            &self.stations,
            &self.lines,
            &self.stop_links,
            &self.aliases,
        )
    }

    /// The active lines among the requested ids, in the standard order.
    pub fn get_by_ids(&self, ids: &Vec<u32>) -> (r: Vec<Line>)
        ensures
            ({
                let sel = sort_lines_by_order(lines_by_ids(self.lines@, ids@));
                r@.len() == sel.len() && forall|i: int|
                    0 <= i < sel.len() ==> #[trigger] line_matches_ctx(r@[i], sel[i], self.aliases@)
            }),
    {
        InternalLineRepository::get_by_ids(ids, &self.lines, &self.aliases)
    }

    /// The lines serving a station group.
    pub fn get_by_station_group_id(&self, station_group_id: u32) -> (r: Vec<Line>)
        ensures
            ({
                let sel = sort_lines_by_order(
                    lines_by_station_group(
                        self.stations@,
                        self.lines@,
                        self.stop_links@,
                        station_group_id,
                    ),
                );
                r@.len() == sel.len() && forall|i: int|
                    0 <= i < sel.len() ==> #[trigger] line_matches_ctx(r@[i], sel[i], self.aliases@)
            }),
    {
        InternalLineRepository::get_by_station_group_id(
            station_group_id,
            &self.stations,
            &self.lines,
            &self.stop_links,
            &self.aliases,
        )
    }

    /// The batched station-group lookup.
    pub fn get_by_station_group_id_vec(&self, station_group_id_vec: &Vec<u32>) -> (r: Vec<Line>)
        ensures
            ({
                let sel = sort_lines_by_order(
                    lines_by_station_group_batch(
                        self.stations@,
                        self.lines@,
                        self.stop_links@,
                        station_group_id_vec@,
                    ),
                );
                r@.len() == sel.len() && forall|i: int|
                    0 <= i < sel.len() ==> #[trigger] line_matches_ctx(r@[i], sel[i], self.aliases@)
            }),
    {
        InternalLineRepository::get_by_station_group_id_vec(
            station_group_id_vec,
            &self.stations,
            &self.lines,
            &self.stop_links,
            &self.aliases,
        )
    }

    /// The distinct lines reachable from a line group.
    pub fn get_by_line_group_id(&self, line_group_id: u32) -> (r: Vec<Line>)
        ensures
            ({
                let sel = sort_lines_by_order(
                    lines_by_line_group(
                        self.stop_links@,
                        self.stations@,
                        self.lines@,
                        line_group_id,
                    ),
                );
                r@.len() == sel.len() && forall|i: int|
                    0 <= i < sel.len() ==> #[trigger] line_matches_ctx(r@[i], sel[i], self.aliases@)
            }),
    {
        InternalLineRepository::get_by_line_group_id(
            line_group_id,
            &self.stations,
            &self.lines,
            &self.stop_links,
            &self.aliases,
        )
    }

    /// The batched line-group lookup.
    pub fn get_by_line_group_id_vec(&self, line_group_id_vec: &Vec<u32>) -> (r: Vec<Line>)
        ensures
            ({
                let sel = sort_lines_by_order(
                    lines_by_line_group_vec(
                        self.stop_links@,
                        self.stations@,
                        self.lines@,
                        line_group_id_vec@,
                    ),
                );
                r@.len() == sel.len() && forall|i: int|
                    0 <= i < sel.len() ==> #[trigger] line_matches_ctx(r@[i], sel[i], self.aliases@)
            }),
    {
        InternalLineRepository::get_by_line_group_id_vec(
            line_group_id_vec,
            &self.stations,
            &self.lines,
            &self.stop_links,
            &self.aliases,
        )
    }

    /// The batched line-group lookup for route listings.
    pub fn get_by_line_group_id_vec_for_routes(&self, line_group_id_vec: &Vec<u32>) -> (r: Vec<
        Line,
    >)
        ensures
            ({
                let sel = sort_lines_by_order(
                    dedup_lines_by_cd(
                        lines_by_line_group_vec(
                            self.stop_links@,
                            self.stations@,
                            self.lines@,
                            line_group_id_vec@,
                        ),
                    ),
                );
                r@.len() == sel.len() && forall|i: int|
                    0 <= i < sel.len() ==> #[trigger] line_matches_ctx(r@[i], sel[i], self.aliases@)
            }),
    {
        InternalLineRepository::get_by_line_group_id_vec_for_routes(
            line_group_id_vec,
            &self.stations,
            &self.lines,
            &self.stop_links,
            &self.aliases,
        )
    }

    /// Free-text name search over every localized name field,
    /// case-insensitive up to ASCII case.
    pub fn get_by_name(&self, line_name: &str, limit: Option<u32>) -> (r: Vec<Line>)
        ensures
            ({
                let sel = take_line_limit(
                    sort_lines_by_order(lines_by_name(self.lines@, line_name@)),
                    limit,
                );
                r@.len() == sel.len() && forall|i: int|
                    0 <= i < sel.len() ==> #[trigger] line_matches_ctx(r@[i], sel[i], self.aliases@)
            }),
    {
        InternalLineRepository::get_by_name(line_name, limit, &self.lines, &self.aliases)
    }
}

/// What the first-match line lookup returns: an active row with the
/// requested id, or nothing only when the table has none.
pub proof fn lemma_find_line_row_props(lines: Seq<LineRow>, line_cd: u32)
    ensures
        match find_line_row(lines, line_cd) {
            Option::Some(row) => row.e_status == 0 && row.line_cd == line_cd && lines.contains(
                row,
            ),
            Option::None => forall|i: int|
                0 <= i < lines.len() ==> !(#[trigger] lines[i].e_status == 0 && lines[i].line_cd
                    == line_cd),
        },
    decreases lines.len(),
{
    if lines.len() > 0 {
        if lines[0].e_status == 0 && lines[0].line_cd == line_cd {
        } else {
            lemma_find_line_row_props(lines.drop_first(), line_cd);
            match find_line_row(lines, line_cd) {
                Option::Some(row) => {
                    assert(lines.drop_first().contains(row));
                    let j = choose|j: int|
                        0 <= j < lines.drop_first().len() && lines.drop_first()[j] == row;
                    assert(lines[j + 1] == row);
                },
                Option::None => {
                    assert forall|i: int|
                        0 <= i < lines.len() implies !(#[trigger] lines[i].e_status == 0
                        && lines[i].line_cd == line_cd) by {
                        if i > 0 {
                            assert(lines.drop_first()[i - 1] == lines[i]);
                        }
                    }
                },
            }
        }
    }
}

/// Every row selected by an id batch is an active table row among the
/// requested ids, carried without context.
pub proof fn lemma_lines_by_ids_elements(lines: Seq<LineRow>, ids: Seq<u32>)
    ensures
        forall|k: int|
            0 <= k < lines_by_ids(lines, ids).len() ==> ({
                let e = #[trigger] lines_by_ids(lines, ids)[k];
                e == plain_ctx(e.line) && e.line.e_status == 0 && lines.contains(e.line)
                    && ids.contains(e.line.line_cd)
            }),
    decreases lines.len(),
{
    if lines.len() > 0 {
        let s2 = lines.drop_last();
        lemma_lines_by_ids_elements(s2, ids);
        let r2 = lines_by_ids(s2, ids);
        assert forall|k: int| 0 <= k < r2.len() implies ({
            let e = #[trigger] r2[k];
            e == plain_ctx(e.line) && e.line.e_status == 0 && lines.contains(e.line)
                && ids.contains(e.line.line_cd)
        }) by {
            assert(s2.contains(r2[k].line));
            let w = choose|w: int| 0 <= w < s2.len() && s2[w] == r2[k].line;
            assert(lines[w] == r2[k].line);
        }
        if lines.last().e_status == 0 && ids.contains(lines.last().line_cd) {
            assert(lines[lines.len() - 1] == lines.last());
            assert(forall|k: int|
                0 <= k < r2.len() ==> lines_by_ids(lines, ids)[k] == #[trigger] r2[k]);
        }
    }
}

/// A station visible to the sibling join is represented in its group's
/// selection: the station is active and in the group, it has a
/// non-skipped service-pattern link, and its home line is active.
pub proof fn lemma_station_group_complete(
    stations: Seq<StationRow>,
    lines: Seq<LineRow>,
    links: Seq<StationStopLink>,
    srow: StationRow,
)
    requires
        stations.contains(srow),
        srow.e_status == 0,
        first_stop_link(links, srow.station_cd) is Some,
        find_line_row(lines, srow.line_cd) is Some,
    ensures
        ctx_has_line(
            lines_by_station_group(stations, lines, links, srow.station_g_cd),
            srow.line_cd,
        ),
    decreases stations.len(),
{
    let g = srow.station_g_cd;
    let r = lines_by_station_group(stations, lines, links, g);
    if stations.last() == srow {
        lemma_find_line_row_props(lines, srow.line_cd);
        assert(r.last().line.line_cd == srow.line_cd);
        assert(ctx_has_line(r, srow.line_cd));
    } else {
        let w = choose|w: int| 0 <= w < stations.len() && stations[w] == srow;
        assert(stations.drop_last()[w] == srow);
        assert(stations.drop_last().contains(srow));
        lemma_station_group_complete(stations.drop_last(), lines, links, srow);
        let r2 = lines_by_station_group(stations.drop_last(), lines, links, g);
        let j = choose|j: int| 0 <= j < r2.len() && #[trigger] r2[j].line.line_cd == srow.line_cd;
        assert(r == r2 || (exists|m: int| 0 <= m < r.len() && r[m] == r2[j]) || r[j] == r2[j]);
        if r != r2 {
            assert(r[j] == r2[j]);
        }
        assert(ctx_has_line(r, srow.line_cd));
    }
}

/// Insertion neither invents nor loses lines.
proof fn lemma_insert_line_elements(s: Seq<LineCtxRow>, x: LineCtxRow)
    ensures
        forall|k: int|
            0 <= k < insert_line_by_order(s, x).len() ==> s.contains(
                #[trigger] insert_line_by_order(s, x)[k],
            ) || insert_line_by_order(s, x)[k] == x,
        forall|cd: u32|
            #[trigger] ctx_has_line(insert_line_by_order(s, x), cd) == (ctx_has_line(s, cd)
                || x.line.line_cd == cd),
    decreases s.len(),
{
    let r = insert_line_by_order(s, x);
    if s.len() == 0 {
        assert forall|cd: u32| #[trigger] ctx_has_line(r, cd) == (ctx_has_line(s, cd)
            || x.line.line_cd == cd) by {
            if ctx_has_line(s, cd) {
                let j = choose|j: int| 0 <= j < s.len() && #[trigger] s[j].line.line_cd == cd;
                assert(false);
            }
            if x.line.line_cd == cd {
                assert(r[0].line.line_cd == cd);
            }
        }
    } else if le_line_order(s.last(), x) {
        assert forall|k: int| 0 <= k < r.len() implies s.contains(#[trigger] r[k]) || r[k] == x by {
            if k < s.len() {
                assert(s[k] == r[k]);
            }
        }
        assert forall|cd: u32| #[trigger] ctx_has_line(r, cd) == (ctx_has_line(s, cd)
            || x.line.line_cd == cd) by {
            if ctx_has_line(s, cd) {
                let j = choose|j: int| 0 <= j < s.len() && #[trigger] s[j].line.line_cd == cd;
                assert(r[j].line.line_cd == cd);
            }
            if x.line.line_cd == cd {
                assert(r[r.len() - 1].line.line_cd == cd);
            }
            if ctx_has_line(r, cd) {
                let j = choose|j: int| 0 <= j < r.len() && #[trigger] r[j].line.line_cd == cd;
                if j < s.len() {
                    assert(s[j].line.line_cd == cd);
                }
            }
        }
    } else {
        let s2 = s.drop_last();
        lemma_insert_line_elements(s2, x);
        let r2 = insert_line_by_order(s2, x);
        assert forall|k: int| 0 <= k < r.len() implies s.contains(#[trigger] r[k]) || r[k] == x by {
            if k < r2.len() {
                assert(r[k] == r2[k]);
                if r2[k] != x {
                    assert(s2.contains(r2[k]));
                    let w = choose|w: int| 0 <= w < s2.len() && s2[w] == r2[k];
                    assert(s[w] == s2[w]);
                }
            } else {
                assert(r[k] == s[s.len() - 1]);
            }
        }
        assert forall|cd: u32| #[trigger] ctx_has_line(r, cd) == (ctx_has_line(s, cd)
            || x.line.line_cd == cd) by {
            if ctx_has_line(s, cd) {
                let j = choose|j: int| 0 <= j < s.len() && #[trigger] s[j].line.line_cd == cd;
                if j < s.len() - 1 {
                    assert(s2[j].line.line_cd == cd);
                    assert(ctx_has_line(s2, cd));
                    assert(ctx_has_line(r2, cd));
                    let m = choose|m: int|
                        0 <= m < r2.len() && #[trigger] r2[m].line.line_cd == cd;
                    assert(r[m].line.line_cd == cd);
                } else {
                    assert(r[r.len() - 1].line.line_cd == cd);
                }
            }
            if x.line.line_cd == cd {
                assert(ctx_has_line(r2, cd));
                let m = choose|m: int| 0 <= m < r2.len() && #[trigger] r2[m].line.line_cd == cd;
                assert(r[m].line.line_cd == cd);
            }
            if ctx_has_line(r, cd) {
                let j = choose|j: int| 0 <= j < r.len() && #[trigger] r[j].line.line_cd == cd;
                if j < r2.len() {
                    assert(ctx_has_line(r2, cd));
                    if !(x.line.line_cd == cd) {
                        assert(ctx_has_line(s2, cd));
                        let m = choose|m: int|
                            0 <= m < s2.len() && #[trigger] s2[m].line.line_cd == cd;
                        assert(s[m].line.line_cd == cd);
                    }
                } else {
                    assert(r[j] == s[s.len() - 1]);
                }
            }
        }
    }
}

/// The listing sort neither invents nor loses lines.
pub proof fn lemma_sort_lines_elements(s: Seq<LineCtxRow>)
    ensures
        forall|k: int|
            0 <= k < sort_lines_by_order(s).len() ==> s.contains(
                #[trigger] sort_lines_by_order(s)[k],
            ),
        forall|cd: u32|
            #[trigger] ctx_has_line(sort_lines_by_order(s), cd) == ctx_has_line(s, cd),
    decreases s.len(),
{
    let r = sort_lines_by_order(s);
    if s.len() == 0 {
        assert forall|cd: u32| #[trigger] ctx_has_line(r, cd) == ctx_has_line(s, cd) by {
            if ctx_has_line(r, cd) {
                let j = choose|j: int| 0 <= j < r.len() && #[trigger] r[j].line.line_cd == cd;
                assert(false);
            }
            if ctx_has_line(s, cd) {
                let j = choose|j: int| 0 <= j < s.len() && #[trigger] s[j].line.line_cd == cd;
                assert(false);
            }
        }
    } else {
        let s2 = s.drop_last();
        lemma_sort_lines_elements(s2);
        let r2 = sort_lines_by_order(s2);
        lemma_insert_line_elements(r2, s.last());
        assert forall|k: int| 0 <= k < r.len() implies s.contains(#[trigger] r[k]) by {
            if r[k] == s.last() {
                assert(s[s.len() - 1] == s.last());
            } else {
                assert(r2.contains(r[k]));
                let w = choose|w: int| 0 <= w < r2.len() && r2[w] == r[k];
                assert(s2.contains(r2[w]));
                let v = choose|v: int| 0 <= v < s2.len() && s2[v] == r[k];
                assert(s[v] == r[k]);
            }
        }
        assert forall|cd: u32| #[trigger] ctx_has_line(r, cd) == ctx_has_line(s, cd) by {
            assert(ctx_has_line(r, cd) == (ctx_has_line(r2, cd) || s.last().line.line_cd == cd));
            assert(ctx_has_line(r2, cd) == ctx_has_line(s2, cd));
            if ctx_has_line(s2, cd) {
                let j = choose|j: int| 0 <= j < s2.len() && #[trigger] s2[j].line.line_cd == cd;
                assert(s[j].line.line_cd == cd);
            }
            if s.last().line.line_cd == cd {
                assert(s[s.len() - 1].line.line_cd == cd);
            }
            if ctx_has_line(s, cd) {
                let j = choose|j: int| 0 <= j < s.len() && #[trigger] s[j].line.line_cd == cd;
                if j < s.len() - 1 {
                    assert(s2[j].line.line_cd == cd);
                }
            }
        }
    }
}

/// The standard listing order over a whole selection.
pub open spec fn lines_sorted_by_order(s: Seq<LineCtxRow>) -> bool {
    forall|i: int, j: int| 0 <= i <= j < s.len() ==> le_line_order(#[trigger] s[i], #[trigger] s[j])
}

/// Insertion keeps an order-sorted selection sorted.
proof fn lemma_insert_line_sorted_keeps_order(s: Seq<LineCtxRow>, x: LineCtxRow)
    requires
        lines_sorted_by_order(s),
    ensures
        lines_sorted_by_order(insert_line_by_order(s, x)),
    decreases s.len(),
{
    let r = insert_line_by_order(s, x);
    if s.len() == 0 {
    } else if le_line_order(s.last(), x) {
        assert forall|i: int, j: int| 0 <= i <= j < r.len() implies le_line_order(
            #[trigger] r[i],
            #[trigger] r[j],
        ) by {
            if j == r.len() - 1 {
                if i < s.len() {
                    assert(le_line_order(s[i], s.last()));
                }
            }
        }
    } else {
        let s2 = s.drop_last();
        assert(lines_sorted_by_order(s2)) by {
            assert(forall|i: int, j: int|
                0 <= i <= j < s2.len() ==> le_line_order(#[trigger] s[i], #[trigger] s[j]));
        }
        lemma_insert_line_sorted_keeps_order(s2, x);
        lemma_insert_line_elements(s2, x);
        let r2 = insert_line_by_order(s2, x);
        assert forall|i: int, j: int| 0 <= i <= j < r.len() implies le_line_order(
            #[trigger] r[i],
            #[trigger] r[j],
        ) by {
            if j == r.len() - 1 {
                if i < r.len() - 1 {
                    assert(r[i] == r2[i]);
                    if r2[i] == x {
                        assert(le_line_order(x, s.last()));
                    } else {
                        assert(s2.contains(r2[i]));
                        let w = choose|w: int| 0 <= w < s2.len() && s2[w] == r2[i];
                        assert(le_line_order(s[w], s.last()));
                    }
                }
            } else {
                assert(r[i] == r2[i] && r[j] == r2[j]);
            }
        }
    }
}

/// Every line listing comes back in the standard order: secondary sort
/// field, then primary identifier, ascending.
pub proof fn lemma_line_listing_sorted(s: Seq<LineCtxRow>)
    ensures
        lines_sorted_by_order(sort_lines_by_order(s)),
    decreases s.len(),
{
    if s.len() > 0 {
        lemma_line_listing_sorted(s.drop_last());
        lemma_insert_line_sorted_keeps_order(sort_lines_by_order(s.drop_last()), s.last());
    }
}

} // verus!
