//! The attribute-enrichment engine.
//!
//! A line carries three positional symbol slots and a station three
//! matching number slots.  The slots are compacted in order, and an empty
//! or absent slot at position `i` terminates iteration: slots after the
//! first gap are never considered.  This "first gap stops iteration" rule
//! is compatibility-critical and is enforced here, in one place.  Only
//! the driving slot gates iteration: an absent shape column leaves the
//! entry's shape empty and an absent color column falls back to the
//! line's color, with the entry still emitted.

use vstd::prelude::*;

use crate::error::UseCaseError;
use crate::line::{Line, LineSymbol, LineSymbolModel, line_fields_eq, line_equiv, lines_equiv};
use crate::station::{Station, StationNumber, StationNumberModel, station_fields_eq};

verus! {

/// The optional column is present and non-empty.
pub open spec fn opt_filled(o: Option<String>) -> bool {
    o is Some && o->0@.len() > 0
}

/// The views of a symbol collection.
pub open spec fn symbols_view(v: Seq<LineSymbol>) -> Seq<LineSymbolModel> {
    v.map_values(|s: LineSymbol| s@)
}

/// The views of a number collection.
pub open spec fn numbers_view(v: Seq<StationNumber>) -> Seq<StationNumberModel> {
    v.map_values(|n: StationNumber| n@)
}

/// Slot `i` yields a line symbol: its symbol string is present and
/// non-empty.
pub open spec fn symbol_slot_ok(line: Line, i: int) -> bool {
    opt_filled(line.spec_symbol_slot(i))
}

/// Number of leading gap-free symbol slots; the first gap stops iteration.
pub open spec fn symbol_count(line: Line) -> int {
    if !symbol_slot_ok(line, 0) {
        0
    } else if !symbol_slot_ok(line, 1) {
        1
    } else if !symbol_slot_ok(line, 2) {
        2
    } else {
        3
    }
}

/// The color of slot `i`: the slot's own color, falling back to the line's
/// color when the slot has none.
pub open spec fn slot_color(line: Line, i: int) -> Seq<char> {
    match line.spec_color_slot(i) {
        Option::Some(c) => c@,
        Option::None => line.line_color_c@,
    }
}

/// The shape of slot `i`, empty when the column is absent: an absent
/// shape leaves the entry's shape out, it does not stop iteration.
pub open spec fn slot_shape(line: Line, i: int) -> Seq<char> {
    match line.spec_shape_slot(i) {
        Option::Some(s) => s@,
        Option::None => Seq::empty(),
    }
}

/// The symbol derived from slot `i` of a line.
pub open spec fn line_symbol_model_at(line: Line, i: int) -> LineSymbolModel {
    LineSymbolModel {
        symbol: line.spec_symbol_slot(i)->0@,
        color: slot_color(line, i),
        shape: slot_shape(line, i),
    }
}

/// The ordered symbol collection derived from a line's raw slots.
pub open spec fn line_symbols_of(line: Line) -> Seq<LineSymbolModel> {
    Seq::new(symbol_count(line) as nat, |i: int| line_symbol_model_at(line, i))
}

/// Slot `i` yields a station number: the station's number string is
/// present and non-empty, and the line's symbol column for the slot is
/// present (the symbol may be the empty string).
pub open spec fn number_slot_ok(station: Station, line: Line, i: int) -> bool {
    &&& opt_filled(station.spec_number_slot(i))
    &&& line.spec_symbol_slot(i) is Some
}

/// Number of leading gap-free number slots; iteration stops at the first
/// empty numbered slot even if a later slot is non-empty.
pub open spec fn number_count(station: Station, line: Line) -> int {
    if !number_slot_ok(station, line, 0) {
        0
    } else if !number_slot_ok(station, line, 1) {
        1
    } else if !number_slot_ok(station, line, 2) {
        2
    } else {
        3
    }
}

/// The composed display string: the bare number when the symbol is empty,
/// otherwise `symbol`, a dash, and the number.
pub open spec fn display_of(sym: Seq<char>, num: Seq<char>) -> Seq<char> {
    if sym.len() == 0 {
        num
    } else {
        sym + seq!['-'] + num
    }
}

/// The station number derived from slot `i` of a (station, line) pair.
pub open spec fn station_number_model_at(station: Station, line: Line, i: int)
    -> StationNumberModel {
    StationNumberModel {
        line_symbol: line.spec_symbol_slot(i)->0@,
        line_symbol_color: slot_color(line, i),
        line_symbol_shape: slot_shape(line, i),
        station_number: display_of(line.spec_symbol_slot(i)->0@, station.spec_number_slot(i)->0@),
    }
}

/// The ordered station-number collection derived from a (station, line)
/// pair.
pub open spec fn station_numbers_of(station: Station, line: Line) -> Seq<StationNumberModel> {
    Seq::new(number_count(station, line) as nat, |i: int| station_number_model_at(station, line, i))
}

/// Symbol derivation reads only a line's raw columns, never its derived
/// collection.
pub proof fn lemma_line_symbols_ignore_derived(a: Line, b: Line)
    requires
        line_fields_eq(a, b),
    ensures
        line_symbols_of(a) == line_symbols_of(b),
{
    assert(line_symbols_of(a) =~= line_symbols_of(b));
}

/// Symbol derivation is idempotent: replacing a line's derived collection
/// (as enrichment does) and deriving again from the raw slots yields the
/// same symbols.
pub proof fn lemma_symbol_derivation_idempotent(line: Line, symbols: Vec<LineSymbol>)
    ensures
        line_symbols_of(Line { line_symbols: symbols, ..line }) == line_symbols_of(line),
{
    lemma_line_symbols_ignore_derived(Line { line_symbols: symbols, ..line }, line);
}

/// Number derivation reads only raw columns of the station and the line,
/// never the derived collections of either.
pub proof fn lemma_station_numbers_ignore_derived(a: Station, b: Station, la: Line, lb: Line)
    requires
        station_fields_eq(a, b),
        line_fields_eq(la, lb),
    ensures
        station_numbers_of(a, la) == station_numbers_of(b, lb),
{
    assert(station_numbers_of(a, la) =~= station_numbers_of(b, lb));
}

/// Reference to the symbol string of slot `i`.
fn symbol_slot_ref(line: &Line, i: usize) -> (r: &Option<String>)
    requires
        i < 3,
    ensures
        *r == line.spec_symbol_slot(i as int),
{
    if i == 0 {
        &line.line_symbol_primary
    } else if i == 1 {
        &line.line_symbol_secondary
    } else {
        &line.line_symbol_extra
    }
}

/// Reference to the symbol color of slot `i`.
fn color_slot_ref(line: &Line, i: usize) -> (r: &Option<String>)
    requires
        i < 3,
    ensures
        *r == line.spec_color_slot(i as int),
{
    if i == 0 {
        &line.line_symbol_primary_color
    } else if i == 1 {
        &line.line_symbol_secondary_color
    } else {
        &line.line_symbol_extra_color
    }
}

/// Reference to the symbol shape of slot `i`.
fn shape_slot_ref(line: &Line, i: usize) -> (r: &Option<String>)
    requires
        i < 3,
    ensures
        *r == line.spec_shape_slot(i as int),
{
    if i == 0 {
        &line.line_symbol_primary_shape
    } else if i == 1 {
        &line.line_symbol_secondary_shape
    } else {
        &line.line_symbol_extra_shape
    }
}

/// Reference to the number string of slot `i`.
fn number_slot_ref(station: &Station, i: usize) -> (r: &Option<String>)
    requires
        i < 3,
    ensures
        *r == station.spec_number_slot(i as int),
{
    if i == 0 {
        &station.primary_station_number
    } else if i == 1 {
        &station.secondary_station_number
    } else {
        &station.extra_station_number
    }
}

/// The color of slot `i`, with the fall-back to the line color applied.
fn slot_color_value(line: &Line, i: usize) -> (r: String)
    requires
        i < 3,
    ensures
        r@ == slot_color(*line, i as int),
{
    match color_slot_ref(line, i) {
        Some(c) => c.clone(),
        None => line.line_color_c.clone(),
    }
}

/// The shape of slot `i`, empty when the column is absent.
fn slot_shape_value(line: &Line, i: usize) -> (r: String)
    requires
        i < 3,
    ensures
        r@ == slot_shape(*line, i as int),
{
    match shape_slot_ref(line, i) {
        Some(s) => s.clone(),
        None => String::new(),
    }
}

/// Append slot `i`'s symbol if the slot is gap-free; report whether it was.
fn push_line_symbol(out: &mut Vec<LineSymbol>, line: &Line, i: usize) -> (ok: bool)
    requires
        i < 3,
    ensures
        ok == symbol_slot_ok(*line, i as int),
        ok ==> final(out)@.len() == old(out)@.len() + 1 && final(out)@.subrange(
            0,
            old(out)@.len() as int,
        ) == old(out)@ && final(out)@.last()@ == line_symbol_model_at(*line, i as int),
        !ok ==> final(out)@ == old(out)@,
{
    let sym_slot = symbol_slot_ref(line, i);
    match sym_slot {
        Some(sym) => {
            if sym.as_str().is_empty() {
                return false;
            }
            let color = slot_color_value(line, i);
            let shape = slot_shape_value(line, i);
            out.push(LineSymbol { symbol: sym.clone(), color, shape });
            assert(final(out)@.subrange(0, old(out)@.len() as int) =~= old(out)@);
            true
        },
        None => false,
    }
}

/// Derive the ordered symbol collection from a line's three raw slots,
/// stopping at the first gap.
pub fn get_line_symbols(line: &Line) -> (r: Vec<LineSymbol>)
    ensures
        symbols_view(r@) == line_symbols_of(*line),
{
    let mut out: Vec<LineSymbol> = Vec::new();
    if push_line_symbol(&mut out, line, 0) {
        if push_line_symbol(&mut out, line, 1) {
            push_line_symbol(&mut out, line, 2);
        }
    }
    assert(symbols_view(out@) =~= line_symbols_of(*line));
    out
}

/// The composed display string for one numbered slot.
fn make_display(sym: &String, num: &String) -> (r: String)
    ensures
        r@ == display_of(sym@, num@),
{
    if sym.as_str().is_empty() {
        num.clone()
    } else {
        let mut s = sym.clone();
        s.append("-");
        s.append(num.as_str());
        proof {
            reveal_strlit("-");
            assert("-"@ =~= seq!['-']);
            assert(s@ =~= display_of(sym@, num@));
        }
        s
    }
}

/// Append slot `i`'s station number if the slot is gap-free; report
/// whether it was.
fn push_station_number(out: &mut Vec<StationNumber>, station: &Station, line: &Line, i: usize)
    -> (ok: bool)
    requires
        i < 3,
    ensures
        ok == number_slot_ok(*station, *line, i as int),
        ok ==> final(out)@.len() == old(out)@.len() + 1 && final(out)@.subrange(
            0,
            old(out)@.len() as int,
        ) == old(out)@ && final(out)@.last()@ == station_number_model_at(
            *station,
            *line,
            i as int,
        ),
        !ok ==> final(out)@ == old(out)@,
{
    let num_slot = number_slot_ref(station, i);
    let sym_slot = symbol_slot_ref(line, i);
    match (num_slot, sym_slot) {
        (Some(num), Some(sym)) => {
            if num.as_str().is_empty() {
                return false;
            }
            let display = make_display(sym, num);
            out.push(
                StationNumber {
                    line_symbol: sym.clone(),
                    line_symbol_color: slot_color_value(line, i),
                    line_symbol_shape: slot_shape_value(line, i),
                    station_number: display,
                },
            );
            assert(final(out)@.subrange(0, old(out)@.len() as int) =~= old(out)@);
            true
        },
        _ => false,
    }
}

/// Derive the ordered station-number collection from a (station, home
/// line) pair, stopping at the first empty numbered slot.
pub fn get_station_numbers(station: &Station, line: &Line) -> (r: Vec<StationNumber>)
    ensures
        numbers_view(r@) == station_numbers_of(*station, *line),
{
    let mut out: Vec<StationNumber> = Vec::new();
    if push_station_number(&mut out, station, line, 0) {
        if push_station_number(&mut out, station, line, 1) {
            push_station_number(&mut out, station, line, 2);
        }
    }
    assert(numbers_view(out@) =~= station_numbers_of(*station, *line));
    out
}

/// Derive and attach a line's symbol collection, leaving every raw column
/// unchanged.
pub fn attach_line_symbols(line: Line) -> (r: Line)
    ensures
        line_fields_eq(r, line),
        symbols_view(r.line_symbols@) == line_symbols_of(line),
{
    let symbols = get_line_symbols(&line);
    let mut l = line;
    l.set_line_symbols(symbols);
    l
}

/// Derive and attach symbols for every line of a collection.
pub fn attach_lines_symbols(lines: Vec<Line>) -> (r: Vec<Line>)
    ensures
        r@.len() == lines@.len(),
        forall|i: int|
            0 <= i < lines@.len() ==> #[trigger] line_fields_eq(r@[i], lines@[i])
                && symbols_view(r@[i].line_symbols@) == line_symbols_of(lines@[i]),
{
    let mut out: Vec<Line> = Vec::new();
    let mut i: usize = 0;
    while i < lines.len()
        invariant
            0 <= i <= lines.len(),
            out@.len() == i,
            forall|j: int|
                0 <= j < i ==> #[trigger] line_fields_eq(out@[j], lines@[j]) && symbols_view(
                    out@[j].line_symbols@,
                ) == line_symbols_of(lines@[j]),
        decreases lines.len() - i,
    {
        let cloned = lines[i].clone();
        proof {
            lemma_line_symbols_ignore_derived(cloned, lines@[i as int]);
        }
        let enriched = attach_line_symbols(cloned);
        out.push(enriched);
        i = i + 1;
    }
    out
}

/// The sibling collection `out_lines` is `sib` with each line's symbols
/// derived and attached.
pub open spec fn siblings_attached(out_lines: Seq<Line>, sib: Seq<Line>) -> bool {
    out_lines.len() == sib.len() && forall|i: int|
        0 <= i < sib.len() ==> #[trigger] line_fields_eq(out_lines[i], sib[i]) && symbols_view(
            out_lines[i].line_symbols@,
        ) == line_symbols_of(sib[i])
}

/// The first line of the collection whose `line_cd` matches, if any.
pub open spec fn find_belong(belong: Seq<Line>, cd: u32) -> Option<Line>
    decreases belong.len(),
{
    if belong.len() == 0 {
        Option::None
    } else if belong[0].line_cd == cd {
        Option::Some(belong[0])
    } else {
        find_belong(belong.drop_first(), cd)
    }
}

/// Scan a line collection for the first entry with the given `line_cd`.
pub fn find_line_by_cd(lines: &Vec<Line>, cd: u32) -> (r: Option<Line>)
    ensures
        match find_belong(lines@, cd) {
            Option::Some(b) => r is Some && line_equiv(r->0, b),
            Option::None => r is None,
        },
{
    let mut i: usize = 0;
    proof {
        assert(lines@.skip(0) =~= lines@);
    }
    while i < lines.len()
        invariant
            0 <= i <= lines.len(),
            find_belong(lines@, cd) == find_belong(lines@.skip(i as int), cd),
            forall|j: int| 0 <= j < i ==> lines@[j].line_cd != cd,
        decreases lines.len() - i,
    {
        if lines[i].line_cd == cd {
            assert(lines@.skip(i as int)[0] == lines@[i as int]);
            return Some(lines[i].clone());
        }
        proof {
            assert(lines@.skip(i as int).drop_first() =~= lines@.skip(i + 1));
        }
        i = i + 1;
    }
    assert(lines@.skip(i as int).len() == 0);
    None
}

/// The home line candidate resolves for this station: it is present and
/// carries the station's `line_cd`.
pub open spec fn home_line_resolves(station: Station, home: Option<Line>) -> bool {
    home is Some && home->0.line_cd == station.line_cd
}

/// The result of successful single-station enrichment: raw fields kept,
/// siblings attached with their symbols, the home line attached with its
/// symbols, and the station numbers derived from the (station, home line)
/// pair.
pub open spec fn enriched_station_spec(
    out: Station,
    station: Station,
    home: Line,
    siblings: Seq<Line>,
) -> bool {
    &&& station_fields_eq(out, station)
    &&& siblings_attached(out.lines@, siblings)
    &&& out.line is Some
    &&& line_fields_eq(*out.line->0, home)
    &&& symbols_view(out.line->0.line_symbols@) == line_symbols_of(home)
    &&& numbers_view(out.station_numbers@) == station_numbers_of(station, home)
}

/// Single-station enrichment.
///
/// `home` is the provider's lookup of the station's `line_cd` and
/// `sibling_lines` the lines sharing its station group.  If the home line
/// resolves, the fully enriched station is returned; if not, the station's
/// data is inconsistent and enrichment fails — a station with an
/// unresolved home line is not a valid empty result.
pub fn enrich_station(station: Station, home: Option<Line>, sibling_lines: Vec<Line>) -> (r:
    Result<Station, UseCaseError>)
    ensures
        match r {
            Result::Ok(out) => home_line_resolves(station, home) && enriched_station_spec(
                out,
                station,
                home->0,
                sibling_lines@,
            ),
            Result::Err(e) => !home_line_resolves(station, home) && e matches
                UseCaseError::InconsistentData,
        },
{
    let ghost station0 = station;
    let mut station = station;
    let lines = attach_lines_symbols(sibling_lines);
    station.set_lines(lines);
    match home {
        Some(home_line) => {
            if home_line.line_cd == station.line_cd {
                let numbers = get_station_numbers(&station, &home_line);
                proof {
                    lemma_station_numbers_ignore_derived(station, station0, home_line, home_line);
                }
                station.set_station_numbers(numbers);
                let enriched_home = attach_line_symbols(home_line);
                station.set_line(Some(Box::new(enriched_home)));
                Ok(station)
            } else {
                Err(UseCaseError::InconsistentData)
            }
        },
        None => Err(UseCaseError::InconsistentData),
    }
}

/// The result of batch enrichment for one station: raw fields kept.  If
/// a home line is found among `belong`, it is attached with symbols, the
/// numbers are derived, and the sibling collection is attached when a
/// group fetch was supplied for it.  If not, the station is skipped from
/// enrichment but not dropped: it keeps its place in the result with the
/// home line cleared and the derived collections empty (batch enrichment
/// degrades gracefully instead of failing the whole batch).
pub open spec fn batch_enriched_spec(
    out: Station,
    station: Station,
    belong: Seq<Line>,
    siblings: Option<Seq<Line>>,
) -> bool {
    &&& station_fields_eq(out, station)
    &&& match find_belong(belong, station.line_cd) {
        Option::Some(bl) => {
            &&& match siblings {
                Option::Some(sib) => siblings_attached(out.lines@, sib),
                Option::None => lines_equiv(out.lines@, station.lines@),
            }
            &&& out.line is Some
            &&& line_fields_eq(*out.line->0, bl)
            &&& symbols_view(out.line->0.line_symbols@) == line_symbols_of(bl)
            &&& numbers_view(out.station_numbers@) == station_numbers_of(station, bl)
        },
        Option::None => out.line is None && out.station_numbers@ == station.station_numbers@
            && out.lines@.len() == 0,
    }
}

/// The sibling fetch supplied for station `i`, if the per-station list
/// reaches that far.
pub open spec fn siblings_at(lines_per_station: Seq<Vec<Line>>, i: int) -> Option<Seq<Line>> {
    if 0 <= i < lines_per_station.len() {
        Option::Some(lines_per_station[i]@)
    } else {
        Option::None
    }
}

/// Batch enrichment over many stations.
///
/// `belong_lines` is one flat fetch of the distinct home lines and
/// `lines_per_station` one sibling fetch per station, indexed like
/// `stations`.  A station whose home line cannot be resolved is kept in
/// the result with its home line cleared and its derived collections
/// empty, rather than failing the batch.
pub fn enrich_stations(
    stations: Vec<Station>,
    belong_lines: Vec<Line>,
    lines_per_station: Vec<Vec<Line>>,
) -> (r: Vec<Station>)
    ensures
        r@.len() == stations@.len(),
        forall|i: int|
            0 <= i < stations@.len() ==> #[trigger] batch_enriched_spec(
                r@[i],
                stations@[i],
                belong_lines@,
                siblings_at(lines_per_station@, i),
            ),
{
    let mut out: Vec<Station> = Vec::new();
    let mut i: usize = 0;
    while i < stations.len()
        invariant
            0 <= i <= stations.len(),
            out@.len() == i,
            forall|j: int|
                0 <= j < i ==> #[trigger] batch_enriched_spec(
                    out@[j],
                    stations@[j],
                    belong_lines@,
                    siblings_at(lines_per_station@, j),
                ),
        decreases stations.len() - i,
    {
        let ghost station0 = stations@[i as int];
        let mut st = stations[i].clone();
        match find_line_by_cd(&belong_lines, st.line_cd) {
            Some(bl) => {
                let ghost bl0 = find_belong(belong_lines@, station0.line_cd)->0;
                if i < lines_per_station.len() {
                    let sib = crate::station::clone_lines(&lines_per_station[i]);
                    let ghost sib0 = lines_per_station@[i as int]@;
                    proof {
                        assert(lines_equiv(sib@, sib0));
                        assert forall|k: int| 0 <= k < sib0.len() implies line_fields_eq(
                            sib@[k],
                            sib0[k],
                        ) && line_symbols_of(sib@[k]) == line_symbols_of(sib0[k]) by {
                            assert(line_equiv(sib@[k], sib0[k]));
                            lemma_line_symbols_ignore_derived(sib@[k], sib0[k]);
                        }
                    }
                    let enriched_sib = attach_lines_symbols(sib);
                    st.set_lines(enriched_sib);
                    proof {
                        assert forall|k: int| 0 <= k < sib0.len() implies #[trigger] line_fields_eq(
                            st.lines@[k],
                            sib0[k],
                        ) && symbols_view(st.lines@[k].line_symbols@) == line_symbols_of(
                            sib0[k],
                        ) by {
                            assert(line_fields_eq(st.lines@[k], sib@[k]));
                            assert(line_fields_eq(sib@[k], sib0[k]));
                        }
                        assert(siblings_attached(st.lines@, sib0));
                    }
                }
                let numbers = get_station_numbers(&st, &bl);
                proof {
                    lemma_station_numbers_ignore_derived(st, station0, bl, bl0);
                    lemma_line_symbols_ignore_derived(bl, bl0);
                }
                st.set_station_numbers(numbers);
                let enriched_home = attach_line_symbols(bl);
                st.set_line(Some(Box::new(enriched_home)));
            },
            None => {
                st.set_lines(Vec::new());
                st.set_line(None);
            },
        }
        proof {
            assert(batch_enriched_spec(
                st,
                stations@[i as int],
                belong_lines@,
                siblings_at(lines_per_station@, i as int),
            ));
        }
        out.push(st);
        i = i + 1;
    }
    out
}

} // verus!
