//! Company entity: identity plus localized names and a URL.  Company
//! records are immutable master data and are cached by id.

use vstd::prelude::*;

verus! {

/// A railway operating company.
pub struct Company {
    pub company_cd: u32,
    pub rr_cd: u32,
    pub company_name: String,
    pub company_name_k: String,
    pub company_name_h: String,
    pub company_name_r: String,
    pub company_name_en: String,
    pub company_name_full_en: String,
    pub company_url: String,
    pub company_type: u32,
    pub e_status: u32,
    pub e_sort: u32,
}

impl Clone for Company {
    fn clone(&self) -> (r: Self)
        ensures
            r == *self,
    {
        Company {
            company_cd: self.company_cd,
            rr_cd: self.rr_cd,
            company_name: self.company_name.clone(),
            company_name_k: self.company_name_k.clone(),
            company_name_h: self.company_name_h.clone(),
            company_name_r: self.company_name_r.clone(),
            company_name_en: self.company_name_en.clone(),
            company_name_full_en: self.company_name_full_en.clone(),
            company_url: self.company_url.clone(),
            company_type: self.company_type,
            e_status: self.e_status,
            e_sort: self.e_sort,
        }
    }
}

} // verus!
