//! In-memory company provider, with the opportunistic cache used for
//! single-entity lookups.
//!
//! Company records are immutable master data: a cached value never needs
//! invalidation.  Cache keys follow the namespaced convention
//! `"<provider-name>:<method-name>:<id>"`, one cached value per key.

use vstd::prelude::*;

use crate::company::Company;
use crate::text::{dec_rep, push_decimal};

verus! {

/// A raw row of the companies table.
pub struct CompanyRow {
    pub company_cd: u32,
    pub rr_cd: u32,
    pub company_name: String,
    pub company_name_k: String,
    pub company_name_h: String,
    pub company_name_r: String,
    pub company_name_en: String,
    pub company_name_full_en: String,
    pub company_url: String,
    pub company_type: u32,
    pub e_status: u32,
    pub e_sort: u32,
}

impl Clone for CompanyRow {
    fn clone(&self) -> (r: Self)
        ensures
            r == *self,
    {
        CompanyRow {
            company_cd: self.company_cd,
            rr_cd: self.rr_cd,
            company_name: self.company_name.clone(),
            company_name_k: self.company_name_k.clone(),
            company_name_h: self.company_name_h.clone(),
            company_name_r: self.company_name_r.clone(),
            company_name_en: self.company_name_en.clone(),
            company_name_full_en: self.company_name_full_en.clone(),
            company_url: self.company_url.clone(),
            company_type: self.company_type,
            e_status: self.e_status,
            e_sort: self.e_sort,
        }
    }
}

/// The entity carried by a row.
pub open spec fn company_of(row: CompanyRow) -> Company {
    Company {
        company_cd: row.company_cd,
        rr_cd: row.rr_cd,
        company_name: row.company_name,
        company_name_k: row.company_name_k,
        company_name_h: row.company_name_h,
        company_name_r: row.company_name_r,
        company_name_en: row.company_name_en,
        company_name_full_en: row.company_name_full_en,
        company_url: row.company_url,
        company_type: row.company_type,
        e_status: row.e_status,
        e_sort: row.e_sort,
    }
}

impl From<CompanyRow> for Company {
    fn from(row: CompanyRow) -> (r: Company) {
        Company {
            company_cd: row.company_cd,
            rr_cd: row.rr_cd,
            company_name: row.company_name,
            company_name_k: row.company_name_k,
            company_name_h: row.company_name_h,
            company_name_r: row.company_name_r,
            company_name_en: row.company_name_en,
            company_name_full_en: row.company_name_full_en,
            company_url: row.company_url,
            company_type: row.company_type,
            e_status: row.e_status,
            e_sort: row.e_sort,
        }
    }
}

impl vstd::std_specs::convert::FromSpecImpl<CompanyRow> for Company {
    open spec fn obeys_from_spec() -> bool {
        true
    }

    open spec fn from_spec(row: CompanyRow) -> Company {
        company_of(row)
    }
}

/// The cache key of a single-company lookup: the provider name, the
/// method name, and the id, colon-separated.
pub open spec fn company_cache_key_view(id: u32) -> Seq<char> {
    "company_repository:find_by_id:"@ + dec_rep(id as nat)
}

/// Compose the cache key of a single-company lookup.
pub fn company_cache_key(id: u32) -> (r: String)
    ensures
        r@ == company_cache_key_view(id),
{
    let mut s = "company_repository:find_by_id:".to_owned();
    push_decimal(&mut s, id);
    s
}

/// One cached value under its namespaced key.
pub struct CacheEntry {
    pub key: String,
    pub company: Company,
}

impl Clone for CacheEntry {
    fn clone(&self) -> (r: Self)
        ensures
            r == *self,
    {
        CacheEntry { key: self.key.clone(), company: self.company.clone() }
    }
}

/// The first cached value under the key, if any.
pub open spec fn cache_lookup(entries: Seq<CacheEntry>, key: Seq<char>) -> Option<Company>
    decreases entries.len(),
{
    if entries.len() == 0 {
        Option::None
    } else if entries[0].key@ == key {
        Option::Some(entries[0].company)
    } else {
        cache_lookup(entries.drop_first(), key)
    }
}

/// A deterministic key-value cache for company lookups.  It stands in for
/// the opportunistic TTL cache of the storage collaborator: reads of a
/// key see some value previously stored under it, or nothing.
pub struct CompanyCache {
    pub entries: Vec<CacheEntry>,
}

impl CompanyCache {
    /// An empty cache.
    pub fn new() -> (r: Self)
        ensures
            r.entries@.len() == 0,
    {
        CompanyCache { entries: Vec::new() }
    }

    /// The first cached value under the key, if any.
    pub fn get(&self, key: &String) -> (r: Option<Company>)
        ensures
            r == cache_lookup(self.entries@, key@),
    {
        let mut i: usize = 0;
        proof {
            assert(self.entries@.skip(0) =~= self.entries@);
        }
        while i < self.entries.len()
            invariant
                0 <= i <= self.entries.len(),
                cache_lookup(self.entries@, key@) == cache_lookup(
                    self.entries@.skip(i as int),
                    key@,
                ),
            decreases self.entries.len() - i,
        {
            if self.entries[i].key.eq(key) {
                assert(self.entries@.skip(i as int)[0] == self.entries@[i as int]);
                return Some(self.entries[i].company.clone());
            }
            proof {
                assert(self.entries@.skip(i as int).drop_first() =~= self.entries@.skip(i + 1));
            }
            i = i + 1;
        }
        assert(self.entries@.skip(i as int).len() == 0);
        None
    }

    /// Store a value under a key.
    pub fn insert(&mut self, key: String, company: Company)
        ensures
            final(self).entries@ == old(self).entries@.push(CacheEntry { key, company }),
    {
        self.entries.push(CacheEntry { key, company });
    }
}

/// The first active row with the given company id, if any.
pub open spec fn find_company_row(rows: Seq<CompanyRow>, company_cd: u32) -> Option<CompanyRow>
    decreases rows.len(),
{
    if rows.len() == 0 {
        Option::None
    } else if rows[0].e_status == 0 && rows[0].company_cd == company_cd {
        Option::Some(rows[0])
    } else {
        find_company_row(rows.drop_first(), company_cd)
    }
}

/// Scan for the first active row with the given company id.
fn find_company_row_exec(rows: &Vec<CompanyRow>, company_cd: u32) -> (r: Option<CompanyRow>)
    ensures
        r == find_company_row(rows@, company_cd),
{
    let mut i: usize = 0;
    proof {
        assert(rows@.skip(0) =~= rows@);
    }
    while i < rows.len()
        invariant
            0 <= i <= rows.len(),
            find_company_row(rows@, company_cd) == find_company_row(
                rows@.skip(i as int),
                company_cd,
            ),
        decreases rows.len() - i,
    {
        if rows[i].e_status == 0 && rows[i].company_cd == company_cd {
            assert(rows@.skip(i as int)[0] == rows@[i as int]);
            return Some(rows[i].clone());
        }
        proof {
            assert(rows@.skip(i as int).drop_first() =~= rows@.skip(i + 1));
        }
        i = i + 1;
    }
    assert(rows@.skip(i as int).len() == 0);
    None
}

/// What a cached single-company lookup does: a hit under the namespaced
/// key is served with the cache untouched; on a miss the active row, if
/// any, is returned and appended to the cache under that key; a miss on
/// both leaves the cache untouched.
pub open spec fn cached_find_spec(
    r: Option<Company>,
    pre: Seq<CacheEntry>,
    post: Seq<CacheEntry>,
    companies: Seq<CompanyRow>,
    id: u32,
) -> bool {
    match cache_lookup(pre, company_cache_key_view(id)) {
        Option::Some(c) => r == Option::Some(c) && post == pre,
        Option::None => match find_company_row(companies, id) {
            Option::Some(row) => r == Option::Some(company_of(row)) && post.len() == pre.len() + 1
                && post.subrange(0, pre.len() as int) == pre && post.last().key@
                == company_cache_key_view(id) && post.last().company == company_of(row),
            Option::None => r is None && post == pre,
        },
    }
}

/// The in-memory company query engine.
pub struct InternalCompanyRepository {}

impl InternalCompanyRepository {
    /// Look a company up by id: a cached value under the namespaced key
    /// is served as is; otherwise the active row is fetched and, when
    /// found, stored in the cache before it is returned.
    pub fn find_by_id(id: u32, companies: &Vec<CompanyRow>, cache: &mut CompanyCache) -> (r:
        Option<Company>)
        ensures
            cached_find_spec(r, old(cache).entries@, final(cache).entries@, companies@, id),
    {
        let key = company_cache_key(id);
        match cache.get(&key) {
            Some(c) => Some(c),
            None => {
                match find_company_row_exec(companies, id) {
                    Some(row) => {
                        let company = Company::from(row);
                        let ghost entries0 = cache.entries@;
                        cache.insert(key, company.clone());
                        assert(cache.entries@.subrange(0, entries0.len() as int) =~= entries0);
                        Some(company)
                    },
                    None => None,
                }
            },
        }
    }
}

/// An in-memory company provider with its injected cache.
pub struct MemoryCompanyRepository {
    pub companies: Vec<CompanyRow>,
    pub cache: CompanyCache,
}

impl MemoryCompanyRepository {
    /// Build a provider over the given table, with the injected cache.
    pub fn new(companies: Vec<CompanyRow>, cache: CompanyCache) -> (r: Self)
        ensures
            r == (MemoryCompanyRepository { companies, cache }),
    {
        MemoryCompanyRepository { companies, cache }
    }

    /// Look a company up by id, through the cache.
    pub fn find_by_id(&mut self, id: u32) -> (r: Option<Company>)
        ensures
            final(self).companies@ == old(self).companies@,
            cached_find_spec(
                r,
                old(self).cache.entries@,
                final(self).cache.entries@,
                old(self).companies@,
                id,
            ),
    {
        InternalCompanyRepository::find_by_id(id, &self.companies, &mut self.cache)
    }
}

} // verus!
