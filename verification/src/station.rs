//! Station entity: identity, localized names, position, operational status,
//! three positional number slots, and the derived collections attached by
//! the enrichment engine.
//!
//! Geographic positions are held in micro-degrees (degrees scaled by one
//! million) and proximity distances as squared micro-degree offsets, so the
//! whole entity stays in exact integer arithmetic.

use vstd::prelude::*;

use crate::line::{Line, line_equiv, lines_equiv, clone_opt_string};

verus! {

/// How a given service pattern stops at a station.
#[derive(Clone, Copy, PartialEq, Eq, Structural, Debug)]
pub enum StopCondition {
    All,
    Not,
    Partial,
    Weekday,
    Holiday,
    PartialStop,
}

/// Spec-level image of a [`StationNumber`].
pub struct StationNumberModel {
    pub line_symbol: Seq<char>,
    pub line_symbol_color: Seq<char>,
    pub line_symbol_shape: Seq<char>,
    pub station_number: Seq<char>,
}

/// A derived value object: one numbered slot of a station, composed with
/// the matching line-symbol slot into a display string.
pub struct StationNumber {
    pub line_symbol: String,
    pub line_symbol_color: String,
    pub line_symbol_shape: String,
    pub station_number: String,
}

impl View for StationNumber {
    type V = StationNumberModel;

    open spec fn view(&self) -> StationNumberModel {
        StationNumberModel {
            line_symbol: self.line_symbol@,
            line_symbol_color: self.line_symbol_color@,
            line_symbol_shape: self.line_symbol_shape@,
            station_number: self.station_number@,
        }
    }
}

impl Clone for StationNumber {
    fn clone(&self) -> (r: Self)
        ensures
            r == *self,
    {
        StationNumber {
            line_symbol: self.line_symbol.clone(),
            line_symbol_color: self.line_symbol_color.clone(),
            line_symbol_shape: self.line_symbol_shape.clone(),
            station_number: self.station_number.clone(),
        }
    }
}

/// A station.  `station_numbers`, `lines` and `line` are derived: providers
/// return them empty and the enrichment engine fills them.  `distance` is
/// present only on rows produced by a proximity query.
pub struct Station {
    pub station_cd: u32,
    pub station_g_cd: u32,
    pub station_name: String,
    pub station_name_k: String,
    pub station_name_r: Option<String>,
    pub station_name_zh: Option<String>,
    pub station_name_ko: Option<String>,
    pub station_numbers: Vec<StationNumber>,
    pub primary_station_number: Option<String>,
    pub secondary_station_number: Option<String>,
    pub extra_station_number: Option<String>,
    pub three_letter_code: Option<String>,
    pub line_cd: u32,
    pub line: Option<Box<Line>>,
    pub lines: Vec<Line>,
    pub pref_cd: u32,
    pub post: String,
    pub address: String,
    pub lon: i64,
    pub lat: i64,
    pub open_ymd: String,
    pub close_ymd: String,
    pub e_status: u32,
    pub e_sort: u32,
    pub stop_condition: StopCondition,
    pub distance: Option<u64>,
    pub station_types_count: u64,
}

/// All fields of the two stations agree except possibly the three derived
/// ones (`station_numbers`, `line`, `lines`).
pub open spec fn station_fields_eq(a: Station, b: Station) -> bool {
    &&& a.station_cd == b.station_cd
    &&& a.station_g_cd == b.station_g_cd
    &&& a.station_name == b.station_name
    &&& a.station_name_k == b.station_name_k
    &&& a.station_name_r == b.station_name_r
    &&& a.station_name_zh == b.station_name_zh
    &&& a.station_name_ko == b.station_name_ko
    &&& a.primary_station_number == b.primary_station_number
    &&& a.secondary_station_number == b.secondary_station_number
    &&& a.extra_station_number == b.extra_station_number
    &&& a.three_letter_code == b.three_letter_code
    &&& a.line_cd == b.line_cd
    &&& a.pref_cd == b.pref_cd
    &&& a.post == b.post
    &&& a.address == b.address
    &&& a.lon == b.lon
    &&& a.lat == b.lat
    &&& a.open_ymd == b.open_ymd
    &&& a.close_ymd == b.close_ymd
    &&& a.e_status == b.e_status
    &&& a.e_sort == b.e_sort
    &&& a.stop_condition == b.stop_condition
    &&& a.distance == b.distance
    &&& a.station_types_count == b.station_types_count
}

/// The two optional home lines agree up to [`line_equiv`].
pub open spec fn opt_line_equiv(a: Option<Box<Line>>, b: Option<Box<Line>>) -> bool {
    match (a, b) {
        (Option::None, Option::None) => true,
        (Option::Some(x), Option::Some(y)) => line_equiv(*x, *y),
        _ => false,
    }
}

/// The two stations agree on every raw field and hold equivalent derived
/// collections.
pub open spec fn station_equiv(a: Station, b: Station) -> bool {
    &&& station_fields_eq(a, b)
    &&& a.station_numbers@ == b.station_numbers@
    &&& opt_line_equiv(a.line, b.line)
    &&& lines_equiv(a.lines@, b.lines@)
}

impl Station {
    /// The number string of slot `i` (0 = primary, 1 = secondary, 2 = extra).
    pub open spec fn spec_number_slot(self, i: int) -> Option<String> {
        if i == 0 {
            self.primary_station_number
        } else if i == 1 {
            self.secondary_station_number
        } else {
            self.extra_station_number
        }
    }

    /// Build a station from its raw columns; the derived collections are
    /// passed in explicitly (providers pass them empty).
    pub fn new(
        station_cd: u32,
        station_g_cd: u32,
        station_name: String,
        station_name_k: String,
        station_name_r: Option<String>,
        station_name_zh: Option<String>,
        station_name_ko: Option<String>,
        station_numbers: Vec<StationNumber>,
        primary_station_number: Option<String>,
        secondary_station_number: Option<String>,
        extra_station_number: Option<String>,
        three_letter_code: Option<String>,
        line_cd: u32,
        line: Option<Box<Line>>,
        lines: Vec<Line>,
        pref_cd: u32,
        post: String,
        address: String,
        lon: i64,
        lat: i64,
        open_ymd: String,
        close_ymd: String,
        e_status: u32,
        e_sort: u32,
        stop_condition: StopCondition,
        distance: Option<u64>,
        station_types_count: u64,
    ) -> (r: Station)
        ensures
            r == (Station {
                station_cd,
                station_g_cd,
                station_name,
                station_name_k,
                station_name_r,
                station_name_zh,
                station_name_ko,
                station_numbers,
                primary_station_number,
                secondary_station_number,
                extra_station_number,
                three_letter_code,
                line_cd,
                line,
                lines,
                pref_cd,
                post,
                address,
                lon,
                lat,
                open_ymd,
                close_ymd,
                e_status,
                e_sort,
                stop_condition,
                distance,
                station_types_count,
            }),
    {
        Station {
            station_cd,
            station_g_cd,
            station_name,
            station_name_k,
            station_name_r,
            station_name_zh,
            station_name_ko,
            station_numbers,
            primary_station_number,
            secondary_station_number,
            extra_station_number,
            three_letter_code,
            line_cd,
            line,
            lines,
            pref_cd,
            post,
            address,
            lon,
            lat,
            open_ymd,
            close_ymd,
            e_status,
            e_sort,
            stop_condition,
            distance,
            station_types_count,
        }
    }

    /// Attach the resolved home line.
    pub fn set_line(&mut self, line: Option<Box<Line>>)
        ensures
            *final(self) == (Station { line, ..*old(self) }),
    {
        self.line = line;
    }

    /// Attach the sibling-line collection.
    pub fn set_lines(&mut self, lines: Vec<Line>)
        ensures
            *final(self) == (Station { lines, ..*old(self) }),
    {
        self.lines = lines;
    }

    /// Attach the derived station-number collection.
    pub fn set_station_numbers(&mut self, station_numbers: Vec<StationNumber>)
        ensures
            *final(self) == (Station { station_numbers, ..*old(self) }),
    {
        self.station_numbers = station_numbers;
    }
}

/// Clone a vector of station numbers, preserving its contents.
pub fn clone_station_numbers(v: &Vec<StationNumber>) -> (r: Vec<StationNumber>)
    ensures
        r@ == v@,
{
    let mut out: Vec<StationNumber> = Vec::new();
    let mut i: usize = 0;
    while i < v.len()
        invariant
            0 <= i <= v.len(),
            out@ == v@.subrange(0, i as int),
        decreases v.len() - i,
    {
        out.push(v[i].clone());
        assert(out@ =~= v@.subrange(0, i + 1));
        i = i + 1;
    }
    assert(out@ =~= v@);
    out
}

/// Clone a vector of lines, preserving each line up to [`line_equiv`].
pub fn clone_lines(v: &Vec<Line>) -> (r: Vec<Line>)
    ensures
        lines_equiv(r@, v@),
{
    let mut out: Vec<Line> = Vec::new();
    let mut i: usize = 0;
    while i < v.len()
        invariant
            0 <= i <= v.len(),
            out@.len() == i,
            forall|j: int| 0 <= j < i ==> #[trigger] line_equiv(out@[j], v@[j]),
        decreases v.len() - i,
    {
        out.push(v[i].clone());
        i = i + 1;
    }
    out
}

impl Clone for Station {
    fn clone(&self) -> (r: Self)
        ensures
            station_equiv(r, *self),
    {
        Station {
            station_cd: self.station_cd,
            station_g_cd: self.station_g_cd,
            station_name: self.station_name.clone(),
            station_name_k: self.station_name_k.clone(),
            station_name_r: clone_opt_string(&self.station_name_r),
            station_name_zh: clone_opt_string(&self.station_name_zh),
            station_name_ko: clone_opt_string(&self.station_name_ko),
            station_numbers: clone_station_numbers(&self.station_numbers),
            primary_station_number: clone_opt_string(&self.primary_station_number),
            secondary_station_number: clone_opt_string(&self.secondary_station_number),
            extra_station_number: clone_opt_string(&self.extra_station_number),
            three_letter_code: clone_opt_string(&self.three_letter_code),
            line_cd: self.line_cd,
            line: match &self.line {
                Some(l) => Some(Box::new((**l).clone())),
                None => None,
            },
            lines: clone_lines(&self.lines),
            pref_cd: self.pref_cd,
            post: self.post.clone(),
            address: self.address.clone(),
            lon: self.lon,
            lat: self.lat,
            open_ymd: self.open_ymd.clone(),
            close_ymd: self.close_ymd.clone(),
            e_status: self.e_status,
            e_sort: self.e_sort,
            stop_condition: self.stop_condition,
            distance: match &self.distance {
                Some(d) => Some(*d),
                None => None,
            },
            station_types_count: self.station_types_count,
        }
    }
}

} // verus!
