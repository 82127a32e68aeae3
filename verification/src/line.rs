//! Line entity: identity, localized names, color, and three positional
//! symbol slots (primary / secondary / extra), each independently optional.

use vstd::prelude::*;

verus! {

/// Spec-level image of a [`LineSymbol`]: the three strings as character
/// sequences.
pub struct LineSymbolModel {
    pub symbol: Seq<char>,
    pub color: Seq<char>,
    pub shape: Seq<char>,
}

/// A derived value object built purely from a line's three positional
/// symbol slots.
pub struct LineSymbol {
    pub symbol: String,
    pub color: String,
    pub shape: String,
}

impl View for LineSymbol {
    type V = LineSymbolModel;

    open spec fn view(&self) -> LineSymbolModel {
        LineSymbolModel { symbol: self.symbol@, color: self.color@, shape: self.shape@ }
    }
}

impl Clone for LineSymbol {
    fn clone(&self) -> (r: Self)
        ensures
            r == *self,
    {
        LineSymbol {
            symbol: self.symbol.clone(),
            color: self.color.clone(),
            shape: self.shape.clone(),
        }
    }
}

/// A railway line.  The three symbol slots are flat nullable columns from
/// the backing schema; `line_symbols` is the derived ordered collection,
/// populated by the enrichment engine and never by a provider.  The
/// `line_group_cd` / `station_cd` / `station_g_cd` fields are contextual:
/// they are set only when the line was fetched in a station-join context.
pub struct Line {
    pub line_cd: u32,
    pub company_cd: u32,
    pub line_name: String,
    pub line_name_k: String,
    pub line_name_h: String,
    pub line_name_r: Option<String>,
    pub line_name_zh: Option<String>,
    pub line_name_ko: Option<String>,
    pub line_color_c: String,
    pub line_type: u32,
    pub line_symbols: Vec<LineSymbol>,
    pub line_symbol_primary: Option<String>,
    pub line_symbol_secondary: Option<String>,
    pub line_symbol_extra: Option<String>,
    pub line_symbol_primary_color: Option<String>,
    pub line_symbol_secondary_color: Option<String>,
    pub line_symbol_extra_color: Option<String>,
    pub line_symbol_primary_shape: Option<String>,
    pub line_symbol_secondary_shape: Option<String>,
    pub line_symbol_extra_shape: Option<String>,
    pub e_status: u32,
    pub e_sort: u32,
    pub average_distance: i64,
    pub line_group_cd: Option<u32>,
    pub station_cd: Option<u32>,
    pub station_g_cd: Option<u32>,
}

/// Clone an optional string, preserving its value.
pub fn clone_opt_string(o: &Option<String>) -> (r: Option<String>)
    ensures
        r == *o,
{
    match o {
        Some(s) => Some(s.clone()),
        None => None,
    }
}

/// Clone an optional numeric id, preserving its value.
pub fn clone_opt_u32(o: &Option<u32>) -> (r: Option<u32>)
    ensures
        r == *o,
{
    match o {
        Some(v) => Some(*v),
        None => None,
    }
}

/// Clone a vector of line symbols, preserving its contents.
pub fn clone_line_symbols(v: &Vec<LineSymbol>) -> (r: Vec<LineSymbol>)
    ensures
        r@ == v@,
{
    let mut out: Vec<LineSymbol> = Vec::new();
    let mut i: usize = 0;
    while i < v.len()
        invariant
            0 <= i <= v.len(),
            out@ == v@.subrange(0, i as int),
        decreases v.len() - i,
    {
        out.push(v[i].clone());
        assert(out@ =~= v@.subrange(0, i + 1));
        i = i + 1;
    }
    assert(out@ =~= v@);
    out
}

impl Clone for Line {
    fn clone(&self) -> (r: Self)
        ensures
            line_equiv(r, *self),
    {
        Line {
            line_cd: self.line_cd,
            company_cd: self.company_cd,
            line_name: self.line_name.clone(),
            line_name_k: self.line_name_k.clone(),
            line_name_h: self.line_name_h.clone(),
            line_name_r: clone_opt_string(&self.line_name_r),
            line_name_zh: clone_opt_string(&self.line_name_zh),
            line_name_ko: clone_opt_string(&self.line_name_ko),
            line_color_c: self.line_color_c.clone(),
            line_type: self.line_type,
            line_symbols: clone_line_symbols(&self.line_symbols),
            line_symbol_primary: clone_opt_string(&self.line_symbol_primary),
            line_symbol_secondary: clone_opt_string(&self.line_symbol_secondary),
            line_symbol_extra: clone_opt_string(&self.line_symbol_extra),
            line_symbol_primary_color: clone_opt_string(&self.line_symbol_primary_color),
            line_symbol_secondary_color: clone_opt_string(&self.line_symbol_secondary_color),
            line_symbol_extra_color: clone_opt_string(&self.line_symbol_extra_color),
            line_symbol_primary_shape: clone_opt_string(&self.line_symbol_primary_shape),
            line_symbol_secondary_shape: clone_opt_string(&self.line_symbol_secondary_shape),
            line_symbol_extra_shape: clone_opt_string(&self.line_symbol_extra_shape),
            e_status: self.e_status,
            e_sort: self.e_sort,
            average_distance: self.average_distance,
            line_group_cd: clone_opt_u32(&self.line_group_cd),
            station_cd: clone_opt_u32(&self.station_cd),
            station_g_cd: clone_opt_u32(&self.station_g_cd),
        }
    }
}

impl Line {
    /// The symbol string of slot `i` (0 = primary, 1 = secondary, 2 = extra).
    pub open spec fn spec_symbol_slot(self, i: int) -> Option<String> {
        if i == 0 {
            self.line_symbol_primary
        } else if i == 1 {
            self.line_symbol_secondary
        } else {
            self.line_symbol_extra
        }
    }

    /// The symbol color of slot `i`.
    pub open spec fn spec_color_slot(self, i: int) -> Option<String> {
        if i == 0 {
            self.line_symbol_primary_color
        } else if i == 1 {
            self.line_symbol_secondary_color
        } else {
            self.line_symbol_extra_color
        }
    }

    /// The symbol shape of slot `i`.
    pub open spec fn spec_shape_slot(self, i: int) -> Option<String> {
        if i == 0 {
            self.line_symbol_primary_shape
        } else if i == 1 {
            self.line_symbol_secondary_shape
        } else {
            self.line_symbol_extra_shape
        }
    }

    /// Replace the derived symbol collection, leaving every raw column
    /// unchanged.
    pub fn set_line_symbols(&mut self, line_symbols: Vec<LineSymbol>)
        ensures
            *final(self) == (Line { line_symbols, ..*old(self) }),
    {
        self.line_symbols = line_symbols;
    }
}

/// All fields of the two lines agree except possibly the derived
/// `line_symbols` collection.  Collections are held in `Vec`s, whose
/// abstract identity is finer than their contents, so entity contracts
/// compare field by field.
pub open spec fn line_fields_eq(a: Line, b: Line) -> bool {
    &&& a.line_cd == b.line_cd
    &&& a.company_cd == b.company_cd
    &&& a.line_name == b.line_name
    &&& a.line_name_k == b.line_name_k
    &&& a.line_name_h == b.line_name_h
    &&& a.line_name_r == b.line_name_r
    &&& a.line_name_zh == b.line_name_zh
    &&& a.line_name_ko == b.line_name_ko
    &&& a.line_color_c == b.line_color_c
    &&& a.line_type == b.line_type
    &&& a.line_symbol_primary == b.line_symbol_primary
    &&& a.line_symbol_secondary == b.line_symbol_secondary
    &&& a.line_symbol_extra == b.line_symbol_extra
    &&& a.line_symbol_primary_color == b.line_symbol_primary_color
    &&& a.line_symbol_secondary_color == b.line_symbol_secondary_color
    &&& a.line_symbol_extra_color == b.line_symbol_extra_color
    &&& a.line_symbol_primary_shape == b.line_symbol_primary_shape
    &&& a.line_symbol_secondary_shape == b.line_symbol_secondary_shape
    &&& a.line_symbol_extra_shape == b.line_symbol_extra_shape
    &&& a.e_status == b.e_status
    &&& a.e_sort == b.e_sort
    &&& a.average_distance == b.average_distance
    &&& a.line_group_cd == b.line_group_cd
    &&& a.station_cd == b.station_cd
    &&& a.station_g_cd == b.station_g_cd
}

/// The two lines agree on every raw field and hold the same derived
/// symbols.
pub open spec fn line_equiv(a: Line, b: Line) -> bool {
    line_fields_eq(a, b) && a.line_symbols@ == b.line_symbols@
}

/// Two line sequences agree pointwise up to [`line_equiv`].
pub open spec fn lines_equiv(a: Seq<Line>, b: Seq<Line>) -> bool {
    a.len() == b.len() && forall|i: int| 0 <= i < a.len() ==> #[trigger] line_equiv(a[i], b[i])
}

} // verus!
