//! Record types of the quoting backend and the small constructors on them.
//!
//! Money figures are fixed-point integers in micro-units of currency, RAM is
//! counted in megabytes, and timestamps are milliseconds of absolute time, so
//! that every ordering the store promises is an integer ordering.

use vstd::prelude::*;

verus! {

/// A compute SKU of the catalog. Immutable once written.
pub struct Flavor {
    pub id: String,
    pub name: String,
    pub vcpus: u32,
    pub ram_mb: u64,
    pub price_hourly: u64,
    pub price_monthly: u64,
    pub price_yearly_1: u64,
    pub price_yearly_3: u64,
    pub region: String,
    pub created_at: i64,
}

/// A storage SKU of the catalog, priced per GB.
pub struct DiskType {
    pub id: String,
    pub name: String,
    pub price_per_gb: u64,
    pub region: String,
    pub created_at: i64,
}

/// A named container for quote items.
pub struct Quote {
    pub id: String,
    pub name: String,
    pub created_at: i64,
    pub updated_at: i64,
}

/// One line of a quote: an optional snapshot of a flavor and/or a disk type
/// plus free-form fields. Every optional field may be independently absent.
pub struct QuoteItem {
    pub id: String,
    pub quote_id: String,
    pub flavor_id: Option<String>,
    pub flavor_name: Option<String>,
    pub vcpus: Option<u32>,
    pub ram_mb: Option<u64>,
    pub flavor_price: Option<u64>,
    pub disk_type_id: Option<String>,
    pub disk_type_name: Option<String>,
    pub disk_size_gb: Option<u32>,
    pub disk_price: Option<u64>,
    pub hostname: Option<String>,
    pub code_number: Option<String>,
    pub description: Option<String>,
    pub created_at: i64,
    pub updated_at: i64,
}

/// Body of a quote-creation request.
pub struct CreateQuote {
    pub name: String,
}

/// Body of a quote-rename request; an absent name is a client error.
pub struct UpdateQuote {
    pub name: Option<String>,
}

/// Fields supplied when creating an item; absent fields are stored as absent.
pub struct CreateQuoteItem {
    pub flavor_id: Option<String>,
    pub flavor_name: Option<String>,
    pub vcpus: Option<u32>,
    pub ram_mb: Option<u64>,
    pub flavor_price: Option<u64>,
    pub disk_type_id: Option<String>,
    pub disk_type_name: Option<String>,
    pub disk_size_gb: Option<u32>,
    pub disk_price: Option<u64>,
    pub hostname: Option<String>,
    pub code_number: Option<String>,
    pub description: Option<String>,
}

/// Fields supplied when updating an item: a present field overwrites the
/// stored one, an absent field leaves it untouched.
pub struct UpdateQuoteItem {
    pub flavor_id: Option<String>,
    pub flavor_name: Option<String>,
    pub vcpus: Option<u32>,
    pub ram_mb: Option<u64>,
    pub flavor_price: Option<u64>,
    pub disk_type_id: Option<String>,
    pub disk_type_name: Option<String>,
    pub disk_size_gb: Option<u32>,
    pub disk_price: Option<u64>,
    pub hostname: Option<String>,
    pub code_number: Option<String>,
    pub description: Option<String>,
}

/// The combined catalog: flavors and disk types together.
pub struct PricingData {
    pub flavors: Vec<Flavor>,
    pub disk_types: Vec<DiskType>,
}

/// Query parameters of the best-match lookup; both are required, an absent
/// one is a client error.
pub struct BestMatchQuery {
    pub vcpus: Option<u32>,
    pub ram_mb: Option<u64>,
}

/// Query parameters of the paginated quote listing.
pub struct PaginationQuery {
    pub page: Option<u32>,
    pub limit: Option<u32>,
    pub sort_by: Option<String>,
    pub sort_order: Option<String>,
    pub search: Option<String>,
}

/// One page of records together with the paging bookkeeping.
pub struct PaginatedResponse<T> {
    pub data: Vec<T>,
    pub total: u32,
    pub page: u32,
    pub limit: u32,
    pub total_pages: u32,
}

/// The uniform error payload of the request layer.
pub struct ApiError {
    pub error: String,
    pub code: String,
    pub details: Option<String>,
}

impl ApiError {
    pub fn new(error: &str, code: &str) -> (r: Self)
        ensures
            r.error@ == error@,
            r.code@ == code@,
            r.details is None,
    {
        Self { error: error.to_owned(), code: code.to_owned(), details: None }
    }

    pub fn with_details(error: &str, code: &str, details: &str) -> (r: Self)
        ensures
            r.error@ == error@,
            r.code@ == code@,
            r.details matches Some(d) && d@ == details@,
    {
        Self {
            error: error.to_owned(),
            code: code.to_owned(),
            details: Some(details.to_owned()),
        }
    }
}

/// Copies an optional string; the copy is equal to the original.
pub fn clone_opt_string(o: &Option<String>) -> (r: Option<String>)
    ensures
        r == *o,
{
    match o {
        Some(s) => Some(s.clone()),
        None => None,
    }
}

impl Clone for Flavor {
    fn clone(&self) -> (res: Self)
        ensures
            res == *self,
    {
        Flavor {
            id: self.id.clone(),
            name: self.name.clone(),
            vcpus: self.vcpus,
            ram_mb: self.ram_mb,
            price_hourly: self.price_hourly,
            price_monthly: self.price_monthly,
            price_yearly_1: self.price_yearly_1,
            price_yearly_3: self.price_yearly_3,
            region: self.region.clone(),
            created_at: self.created_at,
        }
    }
}

impl Clone for DiskType {
    fn clone(&self) -> (res: Self)
        ensures
            res == *self,
    {
        DiskType {
            id: self.id.clone(),
            name: self.name.clone(),
            price_per_gb: self.price_per_gb,
            region: self.region.clone(),
            created_at: self.created_at,
        }
    }
}

impl Clone for Quote {
    fn clone(&self) -> (res: Self)
        ensures
            res == *self,
    {
        Quote {
            id: self.id.clone(),
            name: self.name.clone(),
            created_at: self.created_at,
            updated_at: self.updated_at,
        }
    }
}

impl Clone for QuoteItem {
    fn clone(&self) -> (res: Self)
        ensures
            res == *self,
    {
        QuoteItem {
            id: self.id.clone(),
            quote_id: self.quote_id.clone(),
            flavor_id: clone_opt_string(&self.flavor_id),
            flavor_name: clone_opt_string(&self.flavor_name),
            vcpus: self.vcpus,
            ram_mb: self.ram_mb,
            flavor_price: self.flavor_price,
            disk_type_id: clone_opt_string(&self.disk_type_id),
            disk_type_name: clone_opt_string(&self.disk_type_name),
            disk_size_gb: self.disk_size_gb,
            disk_price: self.disk_price,
            hostname: clone_opt_string(&self.hostname),
            code_number: clone_opt_string(&self.code_number),
            description: clone_opt_string(&self.description),
            created_at: self.created_at,
            updated_at: self.updated_at,
        }
    }
}

} // verus!
