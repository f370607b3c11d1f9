//! The request layer: each handler turns one inbound operation into exactly
//! one store call and one response. Validation and default substitution
//! happen here; no business logic beyond that.

use vstd::prelude::*;

use crate::db::{
    ceil_div, flavor_qualifies, items_for, not_item, not_owned_by, not_quote, page_slice,
    quote_id_taken, rename_quotes, update_items, Database,
};
use crate::ext::{fresh_id, now_millis};
use crate::models::{
    ApiError, BestMatchQuery, CreateQuote, CreateQuoteItem, DiskType, Flavor, PaginatedResponse,
    PaginationQuery, PricingData, Quote, QuoteItem, UpdateQuote, UpdateQuoteItem,
};
use crate::sort::{
    disks_sorted_by_price, flavors_sorted_by_price, flavors_sorted_by_shape,
    items_sorted_by_created, quotes_sorted, QuoteSortKey, SortOrder,
};
use crate::text::ci_contains;

verus! {

/// Outcome of one request: the status family the service answers with,
/// carrying the payload or the error body.
pub enum ApiResponse<T> {
    /// Plain success.
    Success(T),
    /// Success of a create operation, distinct from plain success.
    Created(T),
    /// An id-based fetch missed; distinct from a server error.
    NotFound(ApiError),
    /// The client's input was rejected before the store was touched.
    BadRequest(ApiError),
    /// A persistence failure, with no internal detail leaked.
    ServerError(ApiError),
}

/// Liveness payload of the health endpoint.
pub struct HealthInfo {
    pub status: String,
    pub service: String,
    pub version: String,
}

/// Reply of the crawl trigger.
pub struct CrawlStatus {
    pub status: String,
    pub message: String,
}

/// How the outbound call to the crawler collaborator went; the surrounding
/// program performs the call and reports the outcome.
pub enum CrawlOutcome {
    /// The crawler answered with a success status.
    Success,
    /// The crawler answered with a non-success status.
    HttpError,
    /// The call failed or timed out.
    Unreachable,
}

/// Liveness payload with the service's name and version.
pub fn health_check() -> (r: HealthInfo)
    ensures
        r.status@ == "ok"@,
        r.service@ == "quotator-api"@,
        r.version@ == "1.0.0"@,
{
    HealthInfo {
        status: "ok".to_owned(),
        service: "quotator-api".to_owned(),
        version: "1.0.0".to_owned(),
    }
}

/// The catalog's flavors, in catalog order.
pub fn get_flavors(db: &Database) -> (r: ApiResponse<Vec<Flavor>>)
    ensures
        r matches ApiResponse::Success(v) && v@.to_multiset() == db.flavors@.to_multiset()
            && flavors_sorted_by_shape(v@),
{
    ApiResponse::Success(db.get_flavors())
}

/// The catalog's disk types, cheapest first.
pub fn get_disk_types(db: &Database) -> (r: ApiResponse<Vec<DiskType>>)
    ensures
        r matches ApiResponse::Success(v) && v@.to_multiset() == db.disk_types@.to_multiset()
            && disks_sorted_by_price(v@),
{
    ApiResponse::Success(db.get_disk_types())
}

/// Both halves of the catalog in one payload.
pub fn get_all_pricing(db: &Database) -> (r: ApiResponse<PricingData>)
    ensures
        r matches ApiResponse::Success(p) && p.flavors@.to_multiset() == db.flavors@.to_multiset()
            && flavors_sorted_by_shape(p.flavors@) && p.disk_types@.to_multiset()
            == db.disk_types@.to_multiset() && disks_sorted_by_price(p.disk_types@),
{
    ApiResponse::Success(PricingData { flavors: db.get_flavors(), disk_types: db.get_disk_types() })
}

/// The soft-failure reply of the crawl trigger: the endpoint itself always
/// answers successfully; a failed or refused outbound call is reported only
/// as a warning in the payload.
pub fn crawl_reply(outcome: CrawlOutcome) -> (r: ApiResponse<CrawlStatus>)
    ensures
        r matches ApiResponse::Success(s) && (match outcome {
            CrawlOutcome::Success => s.status@ == "ok"@ && s.message@
                == "Crawl triggered successfully"@,
            CrawlOutcome::HttpError => s.status@ == "warning"@ && s.message@
                == "Crawler may not be running"@,
            CrawlOutcome::Unreachable => s.status@ == "warning"@ && s.message@
                == "Crawler service not available"@,
        }),
{
    match outcome {
        CrawlOutcome::Success => ApiResponse::Success(
            CrawlStatus {
                status: "ok".to_owned(),
                message: "Crawl triggered successfully".to_owned(),
            },
        ),
        CrawlOutcome::HttpError => ApiResponse::Success(
            CrawlStatus {
                status: "warning".to_owned(),
                message: "Crawler may not be running".to_owned(),
            },
        ),
        CrawlOutcome::Unreachable => ApiResponse::Success(
            CrawlStatus {
                status: "warning".to_owned(),
                message: "Crawler service not available".to_owned(),
            },
        ),
    }
}

/// Best-match lookup: both minimums are required; an absent one is a client
/// error, answered before the store is touched.
pub fn best_match(db: &Database, query: &BestMatchQuery) -> (r: ApiResponse<Vec<Flavor>>)
    ensures
        match (query.vcpus, query.ram_mb) {
            (Some(min_vcpus), Some(min_ram_mb)) => ({
                let qual = db.flavors@.filter(
                    |f: Flavor| flavor_qualifies(f, min_vcpus, min_ram_mb),
                );
                &&& r matches ApiResponse::Success(v)
                &&& v@.len() == (if qual.len() < 5 {
                    qual.len() as int
                } else {
                    5
                })
                &&& flavors_sorted_by_price(v@)
                &&& forall|i: int|
                    0 <= i < v@.len() ==> flavor_qualifies(#[trigger] v@[i], min_vcpus, min_ram_mb)
                &&& exists|sq: Seq<Flavor>|
                    sq.to_multiset() == qual.to_multiset() && flavors_sorted_by_price(sq) && v@
                        == #[trigger] sq.take(v@.len() as int)
            }),
            _ => r is BadRequest,
        },
{
    match (query.vcpus, query.ram_mb) {
        (Some(min_vcpus), Some(min_ram_mb)) => ApiResponse::Success(
            db.find_best_match(min_vcpus, min_ram_mb),
        ),
        _ => ApiResponse::BadRequest(
            ApiError::new("vcpus and ram_mb query parameters are required", "BAD_REQUEST"),
        ),
    }
}

/// All quotes, most recently updated first.
pub fn get_quotes(db: &Database) -> (r: ApiResponse<Vec<Quote>>)
    ensures
        r matches ApiResponse::Success(v) && v@.to_multiset() == db.quotes@.to_multiset()
            && quotes_sorted(v@, QuoteSortKey::UpdatedAt, SortOrder::Desc),
{
    ApiResponse::Success(db.get_quotes())
}

/// A quote's name contains the search text, ASCII case ignored; an absent
/// search admits every quote.
pub open spec fn pag_matches(q: Quote, search: Option<String>) -> bool {
    match search {
        Some(s) => ci_contains(q.name@, s@),
        None => true,
    }
}

/// The page number a listing request asks for: pages count from 1, an
/// absent or zero value means the first page.
pub open spec fn effective_page(pq: PaginationQuery) -> int {
    match pq.page {
        Some(p) => if p >= 1 {
            p as int
        } else {
            1
        },
        None => 1,
    }
}

/// The page size a listing request asks for: an absent or zero value means
/// the default of 10.
pub open spec fn effective_limit(pq: PaginationQuery) -> int {
    match pq.limit {
        Some(l) => if l >= 1 {
            l as int
        } else {
            10
        },
        None => 10,
    }
}

/// The sort field a listing request asks for, restricted to the allow-list:
/// anything but `created_at` falls back to the update time.
pub open spec fn effective_key(pq: PaginationQuery) -> QuoteSortKey {
    match pq.sort_by {
        Some(s) => if s@ == "created_at"@ {
            QuoteSortKey::CreatedAt
        } else {
            QuoteSortKey::UpdatedAt
        },
        None => QuoteSortKey::UpdatedAt,
    }
}

/// The sort direction a listing request asks for: anything but `asc` falls
/// back to descending.
pub open spec fn effective_order(pq: PaginationQuery) -> SortOrder {
    match pq.sort_order {
        Some(s) => if s@ == "asc"@ {
            SortOrder::Asc
        } else {
            SortOrder::Desc
        },
        None => SortOrder::Desc,
    }
}

/// Paginated quote listing with optional case-insensitive name search and an
/// allow-listed sort key and direction; returns the page slice, the total
/// match count and the page count.
pub fn get_quotes_paginated(db: &Database, pq: &PaginationQuery) -> (r: ApiResponse<
    PaginatedResponse<Quote>,
>)
    ensures
        ({
            let filt = db.quotes@.filter(|q: Quote| pag_matches(q, pq.search));
            let total = if filt.len() < u32::MAX {
                filt.len() as int
            } else {
                u32::MAX as int
            };
            let limit = effective_limit(*pq);
            &&& r matches ApiResponse::Success(p)
            &&& p.page == effective_page(*pq)
            &&& p.limit == limit
            &&& p.total as int == total
            &&& p.total_pages as int == (if ceil_div(total, limit) < u32::MAX {
                ceil_div(total, limit)
            } else {
                u32::MAX as int
            })
            &&& exists|sq: Seq<Quote>|
                sq.to_multiset() == filt.to_multiset() && quotes_sorted(
                    sq,
                    effective_key(*pq),
                    effective_order(*pq),
                ) && p.data@ == #[trigger] page_slice(sq, effective_page(*pq), limit)
        }),
{
    let page: u32 = match pq.page {
        Some(p) => if p >= 1 {
            p
        } else {
            1
        },
        None => 1,
    };
    let limit: u32 = match pq.limit {
        Some(l) => if l >= 1 {
            l
        } else {
            10
        },
        None => 10,
    };
    let key: QuoteSortKey = match &pq.sort_by {
        Some(s) => if crate::ext::str_eq(s.as_str(), "created_at") {
            QuoteSortKey::CreatedAt
        } else {
            QuoteSortKey::UpdatedAt
        },
        None => QuoteSortKey::UpdatedAt,
    };
    let order: SortOrder = match &pq.sort_order {
        Some(s) => if crate::ext::str_eq(s.as_str(), "asc") {
            SortOrder::Asc
        } else {
            SortOrder::Desc
        },
        None => SortOrder::Desc,
    };
    let search: Option<&str> = match &pq.search {
        Some(s) => Some(s.as_str()),
        None => None,
    };
    let p = db.get_quotes_paginated(page, limit, key, order, search);
    proof {
        let f1 = |q: Quote| crate::db::quote_matches(q, search);
        let f2 = |q: Quote| pag_matches(q, pq.search);
        assert forall|q: Quote| #[trigger] f1(q) == f2(q) by {}
        assert(f1 =~= f2);
        assert(db.quotes@.filter(f1) == db.quotes@.filter(f2));
        assert(page as int == effective_page(*pq));
        assert(limit as int == effective_limit(*pq));
        assert(key == effective_key(*pq));
        assert(order == effective_order(*pq));
        let sq0 = choose|sq: Seq<Quote>|
            sq.to_multiset() == db.quotes@.filter(f1).to_multiset() && quotes_sorted(
                sq,
                key,
                order,
            ) && p.data@ == #[trigger] page_slice(sq, page as int, limit as int);
        assert(sq0.to_multiset() == db.quotes@.filter(f2).to_multiset());
        assert(p.data@ == page_slice(sq0, effective_page(*pq), effective_limit(*pq)));
    }
    ApiResponse::Success(p)
}

/// Fetch one quote, or a not-found outcome distinct from a server error.
pub fn get_quote(db: &Database, id: &str) -> (r: ApiResponse<Quote>)
    ensures
        match r {
            ApiResponse::Success(q) => exists|i: int|
                0 <= i < db.quotes@.len() && #[trigger] db.quotes@[i] == q && q.id@ == id@,
            ApiResponse::NotFound(_) => !quote_id_taken(db.quotes@, id@),
            _ => false,
        },
{
    match db.get_quote(id) {
        Some(q) => ApiResponse::Success(q),
        None => ApiResponse::NotFound(ApiError::new("Quote not found", "NOT_FOUND")),
    }
}

/// Create a quote under a fresh identifier; its two timestamps start out
/// equal. The impossible collision of the fresh identifier is reported as a
/// persistence error, and only a store that already holds a 36-character
/// identifier ever admits that answer.
pub fn create_quote(db: &mut Database, body: CreateQuote) -> (r: ApiResponse<Quote>)
    requires
        old(db).wf(),
    ensures
        final(db).wf(),
        final(db).flavors@ == old(db).flavors@,
        final(db).disk_types@ == old(db).disk_types@,
        final(db).items@ == old(db).items@,
        match r {
            ApiResponse::Created(q) => final(db).quotes@ == old(db).quotes@.push(q) && q.name
                == body.name && q.created_at == q.updated_at && !quote_id_taken(
                old(db).quotes@,
                q.id@,
            ),
            ApiResponse::ServerError(_) => final(db).quotes@ == old(db).quotes@ && exists|i: int|
                0 <= i < old(db).quotes@.len() && (#[trigger] old(db).quotes@[i]).id@.len() == 36,
            _ => false,
        },
{
    let id = fresh_id();
    let now = now_millis();
    if db.has_quote(id.as_str()) {
        proof {
            let i = choose|i: int|
                0 <= i < db.quotes@.len() && (#[trigger] db.quotes@[i]).id@ == id@;
            assert(db.quotes@[i].id@.len() == 36);
        }
        ApiResponse::ServerError(ApiError::new("Failed to create quote", "INTERNAL_ERROR"))
    } else {
        let q = db.create_quote(body.name, id, now);
        ApiResponse::Created(q)
    }
}

/// Rename a quote. A body without a name is rejected as a client error
/// before the store is touched; renaming an unknown identifier succeeds as
/// a no-op.
pub fn update_quote(db: &mut Database, id: &str, body: UpdateQuote) -> (r: ApiResponse<()>)
    requires
        old(db).wf(),
    ensures
        final(db).wf(),
        final(db).flavors@ == old(db).flavors@,
        final(db).disk_types@ == old(db).disk_types@,
        final(db).items@ == old(db).items@,
        match body.name {
            Some(name) => r matches ApiResponse::Success(_) && exists|now: i64|
                final(db).quotes@ == #[trigger] rename_quotes(old(db).quotes@, id@, name, now),
            None => r matches ApiResponse::BadRequest(_) && final(db).quotes@ == old(db).quotes@,
        },
{
    match body.name {
        Some(name) => {
            let now = now_millis();
            db.update_quote(id, name, now);
            ApiResponse::Success(())
        },
        None => ApiResponse::BadRequest(
            ApiError::new("No update fields provided", "BAD_REQUEST"),
        ),
    }
}

/// Delete a quote and every item it owns; always acknowledges, whether or
/// not the identifier existed.
pub fn delete_quote(db: &mut Database, id: &str) -> (r: ApiResponse<()>)
    requires
        old(db).wf(),
    ensures
        final(db).wf(),
        final(db).flavors@ == old(db).flavors@,
        final(db).disk_types@ == old(db).disk_types@,
        final(db).quotes@ == old(db).quotes@.filter(not_quote(id@)),
        final(db).items@ == old(db).items@.filter(not_owned_by(id@)),
        r is Success,
{
    db.delete_quote(id);
    ApiResponse::Success(())
}

/// The items of one quote, oldest first.
pub fn get_items(db: &Database, quote_id: &str) -> (r: ApiResponse<Vec<QuoteItem>>)
    ensures
        r matches ApiResponse::Success(v) && v@.to_multiset() == items_for(
            db.items@,
            quote_id@,
        ).to_multiset() && items_sorted_by_created(v@),
{
    ApiResponse::Success(db.get_items(quote_id))
}

/// Create an item under an existing quote, storing exactly the supplied
/// fields; an unknown quote is a not-found outcome. The impossible collision
/// of the fresh identifier is reported as a persistence error, and only a
/// store that already holds a 36-character item identifier ever admits that
/// answer.
pub fn create_item(db: &mut Database, quote_id: &str, body: CreateQuoteItem) -> (r: ApiResponse<
    QuoteItem,
>)
    requires
        old(db).wf(),
    ensures
        final(db).wf(),
        final(db).flavors@ == old(db).flavors@,
        final(db).disk_types@ == old(db).disk_types@,
        final(db).quotes@ == old(db).quotes@,
        match r {
            ApiResponse::Created(it) => ({
                &&& quote_id_taken(old(db).quotes@, quote_id@)
                &&& final(db).items@ == old(db).items@.push(it)
                &&& it.quote_id@ == quote_id@
                &&& it.flavor_id == body.flavor_id
                &&& it.flavor_name == body.flavor_name
                &&& it.vcpus == body.vcpus
                &&& it.ram_mb == body.ram_mb
                &&& it.flavor_price == body.flavor_price
                &&& it.disk_type_id == body.disk_type_id
                &&& it.disk_type_name == body.disk_type_name
                &&& it.disk_size_gb == body.disk_size_gb
                &&& it.disk_price == body.disk_price
                &&& it.hostname == body.hostname
                &&& it.code_number == body.code_number
                &&& it.description == body.description
                &&& it.created_at == it.updated_at
            }),
            ApiResponse::NotFound(_) => !quote_id_taken(old(db).quotes@, quote_id@)
                && final(db).items@ == old(db).items@,
            ApiResponse::ServerError(_) => quote_id_taken(old(db).quotes@, quote_id@)
                && final(db).items@ == old(db).items@ && exists|i: int|
                0 <= i < old(db).items@.len() && (#[trigger] old(db).items@[i]).id@.len() == 36,
            _ => false,
        },
{
    if !db.has_quote(quote_id) {
        return ApiResponse::NotFound(ApiError::new("Quote not found", "NOT_FOUND"));
    }
    let id = fresh_id();
    let now = now_millis();
    if db.has_item(id.as_str()) {
        proof {
            let i = choose|i: int|
                0 <= i < db.items@.len() && (#[trigger] db.items@[i]).id@ == id@;
            assert(db.items@[i].id@.len() == 36);
        }
        ApiResponse::ServerError(ApiError::new("Failed to create item", "INTERNAL_ERROR"))
    } else {
        let it = db.create_item(quote_id, body, id, now);
        ApiResponse::Created(it)
    }
}

/// Every field of an item-update body is absent.
pub open spec fn item_update_empty(u: UpdateQuoteItem) -> bool {
    &&& u.flavor_id is None
    &&& u.flavor_name is None
    &&& u.vcpus is None
    &&& u.ram_mb is None
    &&& u.flavor_price is None
    &&& u.disk_type_id is None
    &&& u.disk_type_name is None
    &&& u.disk_size_gb is None
    &&& u.disk_price is None
    &&& u.hostname is None
    &&& u.code_number is None
    &&& u.description is None
}

/// Partially update an item: supplied fields overwrite, absent fields stay.
/// A body with no field at all is rejected as a client error before the
/// store is touched; an unknown identifier succeeds as a no-op.
pub fn update_item(db: &mut Database, item_id: &str, body: UpdateQuoteItem) -> (r: ApiResponse<()>)
    requires
        old(db).wf(),
    ensures
        final(db).wf(),
        final(db).flavors@ == old(db).flavors@,
        final(db).disk_types@ == old(db).disk_types@,
        final(db).quotes@ == old(db).quotes@,
        if item_update_empty(body) {
            r matches ApiResponse::BadRequest(_) && final(db).items@ == old(db).items@
        } else {
            r matches ApiResponse::Success(_) && exists|now: i64|
                final(db).items@ == #[trigger] update_items(old(db).items@, item_id@, body, now)
        },
{
    let empty = body.flavor_id.is_none() && body.flavor_name.is_none() && body.vcpus.is_none()
        && body.ram_mb.is_none() && body.flavor_price.is_none() && body.disk_type_id.is_none()
        && body.disk_type_name.is_none() && body.disk_size_gb.is_none()
        && body.disk_price.is_none() && body.hostname.is_none() && body.code_number.is_none()
        && body.description.is_none();
    if empty {
        ApiResponse::BadRequest(ApiError::new("No update fields provided", "BAD_REQUEST"))
    } else {
        let now = now_millis();
        db.update_item(item_id, &body, now);
        ApiResponse::Success(())
    }
}

/// Delete an item; always acknowledges, whether or not the identifier
/// existed.
pub fn delete_item(db: &mut Database, item_id: &str) -> (r: ApiResponse<()>)
    requires
        old(db).wf(),
    ensures
        final(db).wf(),
        final(db).flavors@ == old(db).flavors@,
        final(db).disk_types@ == old(db).disk_types@,
        final(db).quotes@ == old(db).quotes@,
        final(db).items@ == old(db).items@.filter(not_item(item_id@)),
        r is Success,
{
    db.delete_item(item_id);
    ApiResponse::Success(())
}

} // verus!
